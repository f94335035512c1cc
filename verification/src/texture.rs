//! Textures that an application draws into: the payload types, and the
//! hand-over of pixel buffers to the engine, one frame at a time.
use std::marker::PhantomData;
use vstd::prelude::*;

verus! {

/// Byte order of the pixels of a pixel buffer.
#[allow(clippy::upper_case_acronyms)]
#[derive(Clone, Copy, PartialEq, Eq, Structural, Debug)]
pub enum PixelBufferFormat {
    BGRA,
    RGBA,
}

/// The byte order of pixel buffers on this platform.
pub const PIXEL_BUFFER_FORMAT: PixelBufferFormat = PixelBufferFormat::RGBA;

/// Pixels in memory, four bytes each.
pub struct PixelBuffer {
    pub width: i32,
    pub height: i32,
    pub data: Vec<u8>,
}

impl PixelBuffer {
    /// The byte order that pixel buffers must have here.
    pub fn format() -> (f: PixelBufferFormat)
        ensures
            f == PIXEL_BUFFER_FORMAT,
    {
        PIXEL_BUFFER_FORMAT
    }
}

/// An OpenGL texture (a payload on platforms that draw with OpenGL).
#[derive(Clone, Copy, PartialEq, Eq, Structural, Debug)]
pub struct GLTexture {
    /// Texture target, such as `GL_TEXTURE_2D`.
    pub target: u32,
    /// OpenGL texture name.
    pub name: u32,
    pub width: i32,
    pub height: i32,
}

/// The state of a texture between the application and the engine: the
/// buffer shown now and the buffer that the next frame will show.
pub struct PlatformTexture {
    pixel_buffer: Option<PixelBuffer>,
    pending_pixel_buffer: Option<PixelBuffer>,
}

/// What a texture can be given to show.
pub trait TexturePayload: Sized {
    /// The buffer that the next frame shows once `payload` is handed over.
    spec fn next_frame(payload: Self) -> PixelBuffer;

    /// Hands `payload` to `texture` for the next frame; the buffer shown now
    /// stays until then.
    fn set_payload(texture: &mut PlatformTexture, payload: Self)
        ensures
            final(texture).pending() == Some(Self::next_frame(payload)),
            final(texture).current() == old(texture).current(),
    ;
}

impl TexturePayload for PixelBuffer {
    /// A pixel buffer is shown as it is.
    open spec fn next_frame(payload: PixelBuffer) -> PixelBuffer {
        payload
    }

    fn set_payload(texture: &mut PlatformTexture, payload: PixelBuffer) {
        texture.pending_pixel_buffer = Some(payload);
    }
}

impl PlatformTexture {
    /// The buffer that the engine was last given.
    pub closed spec fn current(&self) -> Option<PixelBuffer> {
        self.pixel_buffer
    }

    /// The buffer waiting for the next frame.
    pub closed spec fn pending(&self) -> Option<PixelBuffer> {
        self.pending_pixel_buffer
    }

    /// A texture with nothing to show.
    pub fn new() -> (r: Self)
        ensures
            r.current() is None,
            r.pending() is None,
    {
        PlatformTexture { pixel_buffer: None, pending_pixel_buffer: None }
    }

    /// Hands `payload` to the texture for the next frame.
    pub fn set_payload<T: TexturePayload>(&mut self, payload: T)
        ensures
            final(self).pending() == Some(T::next_frame(payload)),
            final(self).current() == old(self).current(),
    {
        T::set_payload(self, payload);
    }

    /// The buffer for the frame the engine asks for: the pending buffer if one
    /// came since the last frame (it then becomes the current one), else the
    /// current one; `None` before any buffer came.
    pub fn frame_buffer(&mut self) -> (r: Option<&PixelBuffer>)
        ensures
            final(self).pending() is None,
            final(self).current() == if old(self).pending() is Some {
                old(self).pending()
            } else {
                old(self).current()
            },
            r == match final(self).current() {
                Some(b) => Some(&b),
                None => None::<&PixelBuffer>,
            },
    {
        let pending = self.pending_pixel_buffer.take();
        if pending.is_some() {
            self.pixel_buffer = pending;
        }
        self.pixel_buffer.as_ref()
    }
}

/// The engine's registry of textures, reached through an opaque handle.
pub struct PlatformTextureRegistry {
    registrar: usize,
}

impl PlatformTextureRegistry {
    /// The registry behind the engine's texture registrar `registrar`.
    pub fn new(registrar: usize) -> (r: Self)
        ensures
            r.registrar() == registrar,
    {
        PlatformTextureRegistry { registrar }
    }

    /// The engine's texture registrar.
    pub closed spec fn registrar(&self) -> usize {
        self.registrar
    }

    /// The engine's texture registrar.
    pub fn registrar_handle(&self) -> (r: usize)
        ensures
            r == self.registrar(),
    {
        self.registrar
    }
}

/// Why a texture could not be made.
#[derive(Clone, Copy, PartialEq, Eq, Structural, Debug)]
pub enum TextureError {
    /// The embedder context is gone.
    InvalidContext,
    /// No engine has the handle.
    InvalidEngineHandle,
}

/// A texture of one engine, registered under an id, that shows payloads of
/// type `Payload`.
pub struct Texture<Payload> {
    engine: i64,
    id: i64,
    texture: PlatformTexture,
    _phantom: PhantomData<Payload>,
}

impl<Payload: TexturePayload> Texture<Payload> {
    /// The texture's id in the registry.
    pub closed spec fn id_spec(&self) -> i64 {
        self.id
    }

    /// The engine that shows the texture.
    pub closed spec fn engine_spec(&self) -> i64 {
        self.engine
    }

    /// The texture's state between the application and the engine.
    pub closed spec fn platform_texture(&self) -> PlatformTexture {
        self.texture
    }

    /// A texture of `engine`, made when the embedder context is alive
    /// (`context_alive`) and has the engine. The embedder registers a new
    /// texture with that engine's registry only then, and hands in the id
    /// the registry gave as `registered`; `None` means that no engine has
    /// the handle, so nothing was registered. The texture has nothing to show
    /// yet.
    pub fn new(context_alive: bool, engine: i64, registered: Option<i64>) -> (r: Result<
        Self,
        TextureError,
    >)
        ensures
            !context_alive ==> r == Err::<Self, TextureError>(TextureError::InvalidContext),
            context_alive && registered is None ==> r == Err::<Self, TextureError>(
                TextureError::InvalidEngineHandle,
            ),
            context_alive && registered is Some ==> (r matches Ok(t) && t.id_spec()
                == registered->0 && t.engine_spec() == engine && t.platform_texture().current()
                is None && t.platform_texture().pending() is None),
    {
        if !context_alive {
            return Err(TextureError::InvalidContext);
        }
        match registered {
            Some(id) => Ok(
                Texture { engine, id, texture: PlatformTexture::new(), _phantom: PhantomData },
            ),
            None => Err(TextureError::InvalidEngineHandle),
        }
    }

    /// The texture's id in the registry.
    pub fn id(&self) -> (r: i64)
        ensures
            r == self.id_spec(),
    {
        self.id
    }

    /// Hands `payload` to the texture for its next frame (a payload that was
    /// still waiting is dropped). The result is the id whose new frame the
    /// engine's registry is to be told of, once; there is none when the
    /// embedder context or the texture's engine is gone (`engine_alive`
    /// false).
    pub fn update(&mut self, payload: Payload, engine_alive: bool) -> (r: Option<i64>)
        ensures
            r == if engine_alive { Some(old(self).id_spec()) } else { None::<i64> },
            final(self).id_spec() == old(self).id_spec(),
            final(self).engine_spec() == old(self).engine_spec(),
            final(self).platform_texture().pending() == Some(Payload::next_frame(payload)),
            final(self).platform_texture().current() == old(self).platform_texture().current(),
    {
        self.texture.set_payload(payload);
        if engine_alive {
            Some(self.id)
        } else {
            None
        }
    }

    /// The buffer for the frame the engine asks for (see
    /// `PlatformTexture::frame_buffer`).
    pub fn frame_buffer(&mut self) -> (r: Option<&PixelBuffer>)
        ensures
            final(self).id_spec() == old(self).id_spec(),
            final(self).engine_spec() == old(self).engine_spec(),
            final(self).platform_texture().pending() is None,
            final(self).platform_texture().current() == if old(self).platform_texture().pending() is Some {
                old(self).platform_texture().pending()
            } else {
                old(self).platform_texture().current()
            },
            r == match final(self).platform_texture().current() {
                Some(b) => Some(&b),
                None => None::<&PixelBuffer>,
            },
    {
        self.texture.frame_buffer()
    }
}

} // verus!
