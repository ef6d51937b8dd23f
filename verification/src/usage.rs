//! Buffer and image usage flags, gathered through a small builder instead of
//! raw bit manipulation.  The application translates a finished value into
//! the GPU API's flag bits.

use vstd::prelude::*;

verus! {

/// The ways a buffer may be used.
#[derive(Clone, Copy, Debug, PartialEq, Eq, Structural)]
pub struct BufferUsage {
    pub transfer_src: bool,
    pub transfer_dst: bool,
    pub uniform_texel_buffer: bool,
    pub storage_texel_buffer: bool,
    pub uniform_buffer: bool,
    pub storage_buffer: bool,
    pub index_buffer: bool,
    pub vertex_buffer: bool,
    pub indirect_buffer: bool,
    pub shader_device_address: bool,
}

impl Default for BufferUsage {
    /// No usage at all.
    fn default() -> (r: Self)
        ensures
            r == (BufferUsage {
                transfer_src: false,
                transfer_dst: false,
                uniform_texel_buffer: false,
                storage_texel_buffer: false,
                uniform_buffer: false,
                storage_buffer: false,
                index_buffer: false,
                vertex_buffer: false,
                indirect_buffer: false,
                shader_device_address: false,
            }),
    {
        BufferUsage {
            transfer_src: false,
            transfer_dst: false,
            uniform_texel_buffer: false,
            storage_texel_buffer: false,
            uniform_buffer: false,
            storage_buffer: false,
            index_buffer: false,
            vertex_buffer: false,
            indirect_buffer: false,
            shader_device_address: false,
        }
    }
}

impl BufferUsage {
    pub fn transfer_src(self, enabled: bool) -> (r: Self)
        ensures
            r == (BufferUsage { transfer_src: enabled, ..self }),
    {
        BufferUsage { transfer_src: enabled, ..self }
    }

    pub fn transfer_dst(self, enabled: bool) -> (r: Self)
        ensures
            r == (BufferUsage { transfer_dst: enabled, ..self }),
    {
        BufferUsage { transfer_dst: enabled, ..self }
    }

    pub fn uniform_texel_buffer(self, enabled: bool) -> (r: Self)
        ensures
            r == (BufferUsage { uniform_texel_buffer: enabled, ..self }),
    {
        BufferUsage { uniform_texel_buffer: enabled, ..self }
    }

    pub fn storage_texel_buffer(self, enabled: bool) -> (r: Self)
        ensures
            r == (BufferUsage { storage_texel_buffer: enabled, ..self }),
    {
        BufferUsage { storage_texel_buffer: enabled, ..self }
    }

    pub fn uniform_buffer(self, enabled: bool) -> (r: Self)
        ensures
            r == (BufferUsage { uniform_buffer: enabled, ..self }),
    {
        BufferUsage { uniform_buffer: enabled, ..self }
    }

    pub fn storage_buffer(self, enabled: bool) -> (r: Self)
        ensures
            r == (BufferUsage { storage_buffer: enabled, ..self }),
    {
        BufferUsage { storage_buffer: enabled, ..self }
    }

    pub fn index_buffer(self, enabled: bool) -> (r: Self)
        ensures
            r == (BufferUsage { index_buffer: enabled, ..self }),
    {
        BufferUsage { index_buffer: enabled, ..self }
    }

    pub fn vertex_buffer(self, enabled: bool) -> (r: Self)
        ensures
            r == (BufferUsage { vertex_buffer: enabled, ..self }),
    {
        BufferUsage { vertex_buffer: enabled, ..self }
    }

    pub fn indirect_buffer(self, enabled: bool) -> (r: Self)
        ensures
            r == (BufferUsage { indirect_buffer: enabled, ..self }),
    {
        BufferUsage { indirect_buffer: enabled, ..self }
    }

    pub fn shader_device_address(self, enabled: bool) -> (r: Self)
        ensures
            r == (BufferUsage { shader_device_address: enabled, ..self }),
    {
        BufferUsage { shader_device_address: enabled, ..self }
    }

    /// Index, vertex and indirect drawing out of one uploaded buffer.
    pub fn preset_fat() -> (r: Self)
        ensures
            r.index_buffer && r.vertex_buffer && r.indirect_buffer && r.transfer_dst,
            !r.transfer_src && !r.uniform_texel_buffer && !r.storage_texel_buffer
                && !r.uniform_buffer && !r.storage_buffer && !r.shader_device_address,
    {
        Self::default().index_buffer(true).vertex_buffer(true).indirect_buffer(true).transfer_dst(
            true,
        )
    }

    /// An uploaded vertex buffer.
    pub fn preset_vertex() -> (r: Self)
        ensures
            r.vertex_buffer && r.transfer_dst,
            !r.transfer_src && !r.uniform_texel_buffer && !r.storage_texel_buffer
                && !r.uniform_buffer && !r.storage_buffer && !r.index_buffer && !r.indirect_buffer
                && !r.shader_device_address,
    {
        Self::default().vertex_buffer(true).transfer_dst(true)
    }

    /// An uploaded index buffer.
    pub fn preset_index() -> (r: Self)
        ensures
            r.index_buffer && r.transfer_dst,
            !r.transfer_src && !r.uniform_texel_buffer && !r.storage_texel_buffer
                && !r.uniform_buffer && !r.storage_buffer && !r.vertex_buffer && !r.indirect_buffer
                && !r.shader_device_address,
    {
        Self::default().index_buffer(true).transfer_dst(true)
    }

    /// A buffer read as uniform and storage data.
    pub fn preset_uniform_storage() -> (r: Self)
        ensures
            r.uniform_buffer && r.storage_buffer,
            !r.transfer_src && !r.transfer_dst && !r.uniform_texel_buffer
                && !r.storage_texel_buffer && !r.index_buffer && !r.vertex_buffer
                && !r.indirect_buffer && !r.shader_device_address,
    {
        Self::default().uniform_buffer(true).storage_buffer(true)
    }

    /// A staging buffer the GPU copies out of.
    pub fn preset_staging() -> (r: Self)
        ensures
            r.transfer_src,
            !r.transfer_dst && !r.uniform_texel_buffer && !r.storage_texel_buffer
                && !r.uniform_buffer && !r.storage_buffer && !r.index_buffer && !r.vertex_buffer
                && !r.indirect_buffer && !r.shader_device_address,
    {
        Self::default().transfer_src(true)
    }

    pub fn is_transfer_src(&self) -> (r: bool)
        ensures
            r == self.transfer_src,
    {
        self.transfer_src
    }

    pub fn is_transfer_dst(&self) -> (r: bool)
        ensures
            r == self.transfer_dst,
    {
        self.transfer_dst
    }

    pub fn is_uniform_texel_buffer(&self) -> (r: bool)
        ensures
            r == self.uniform_texel_buffer,
    {
        self.uniform_texel_buffer
    }

    pub fn is_storage_texel_buffer(&self) -> (r: bool)
        ensures
            r == self.storage_texel_buffer,
    {
        self.storage_texel_buffer
    }

    pub fn is_uniform_buffer(&self) -> (r: bool)
        ensures
            r == self.uniform_buffer,
    {
        self.uniform_buffer
    }

    pub fn is_storage_buffer(&self) -> (r: bool)
        ensures
            r == self.storage_buffer,
    {
        self.storage_buffer
    }

    pub fn is_index_buffer(&self) -> (r: bool)
        ensures
            r == self.index_buffer,
    {
        self.index_buffer
    }

    pub fn is_vertex_buffer(&self) -> (r: bool)
        ensures
            r == self.vertex_buffer,
    {
        self.vertex_buffer
    }

    pub fn is_indirect_buffer(&self) -> (r: bool)
        ensures
            r == self.indirect_buffer,
    {
        self.indirect_buffer
    }

    pub fn is_shader_device_address(&self) -> (r: bool)
        ensures
            r == self.shader_device_address,
    {
        self.shader_device_address
    }
}

/// The ways an image may be used.
#[derive(Clone, Copy, Debug, PartialEq, Eq, Structural)]
pub struct ImageUsage {
    pub transfer_src: bool,
    pub transfer_dst: bool,
    pub sampled: bool,
    pub storage: bool,
    pub color_attachment: bool,
    pub depth_stencil_attachment: bool,
    pub transient_attachment: bool,
    pub input_attachment: bool,
}

impl Default for ImageUsage {
    /// No usage at all.
    fn default() -> (r: Self)
        ensures
            r == (ImageUsage {
                transfer_src: false,
                transfer_dst: false,
                sampled: false,
                storage: false,
                color_attachment: false,
                depth_stencil_attachment: false,
                transient_attachment: false,
                input_attachment: false,
            }),
    {
        ImageUsage {
            transfer_src: false,
            transfer_dst: false,
            sampled: false,
            storage: false,
            color_attachment: false,
            depth_stencil_attachment: false,
            transient_attachment: false,
            input_attachment: false,
        }
    }
}

impl ImageUsage {
    pub fn transfer_src(self, transfer_src: bool) -> (r: Self)
        ensures
            r == (ImageUsage { transfer_src, ..self }),
    {
        ImageUsage { transfer_src, ..self }
    }

    pub fn transfer_dst(self, transfer_dst: bool) -> (r: Self)
        ensures
            r == (ImageUsage { transfer_dst, ..self }),
    {
        ImageUsage { transfer_dst, ..self }
    }

    pub fn sampled(self, sampled: bool) -> (r: Self)
        ensures
            r == (ImageUsage { sampled, ..self }),
    {
        ImageUsage { sampled, ..self }
    }

    pub fn storage(self, storage: bool) -> (r: Self)
        ensures
            r == (ImageUsage { storage, ..self }),
    {
        ImageUsage { storage, ..self }
    }

    pub fn color_attachment(self, color_attachment: bool) -> (r: Self)
        ensures
            r == (ImageUsage { color_attachment, ..self }),
    {
        ImageUsage { color_attachment, ..self }
    }

    pub fn depth_stencil_attachment(self, depth_stencil_attachment: bool) -> (r: Self)
        ensures
            r == (ImageUsage { depth_stencil_attachment, ..self }),
    {
        ImageUsage { depth_stencil_attachment, ..self }
    }

    pub fn transient_attachment(self, transient_attachment: bool) -> (r: Self)
        ensures
            r == (ImageUsage { transient_attachment, ..self }),
    {
        ImageUsage { transient_attachment, ..self }
    }

    pub fn input_attachment(self, input_attachment: bool) -> (r: Self)
        ensures
            r == (ImageUsage { input_attachment, ..self }),
    {
        ImageUsage { input_attachment, ..self }
    }

    pub fn is_transfer_src(&self) -> (r: bool)
        ensures
            r == self.transfer_src,
    {
        self.transfer_src
    }

    pub fn is_transfer_dst(&self) -> (r: bool)
        ensures
            r == self.transfer_dst,
    {
        self.transfer_dst
    }

    pub fn is_sampled(&self) -> (r: bool)
        ensures
            r == self.sampled,
    {
        self.sampled
    }

    pub fn is_storage(&self) -> (r: bool)
        ensures
            r == self.storage,
    {
        self.storage
    }

    pub fn is_color_attachment(&self) -> (r: bool)
        ensures
            r == self.color_attachment,
    {
        self.color_attachment
    }

    pub fn is_depth_stencil_attachment(&self) -> (r: bool)
        ensures
            r == self.depth_stencil_attachment,
    {
        self.depth_stencil_attachment
    }

    pub fn is_transient_attachment(&self) -> (r: bool)
        ensures
            r == self.transient_attachment,
    {
        self.transient_attachment
    }

    pub fn is_input_attachment(&self) -> (r: bool)
        ensures
            r == self.input_attachment,
    {
        self.input_attachment
    }
}

} // verus!
