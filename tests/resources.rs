use protos_rs::backbuffer::BackbufferPass;
use protos_rs::buffer::Buffer;
use protos_rs::graphic_pass::{AttachmentDescription, GraphicPass};
use protos_rs::handles::{ConstantBufferHandle, ImageHandle, RawBufferHandle, RenderGraph, TextureHandle, INVALID_ID};
use protos_rs::mesh::{Mesh, MeshShape, MeshSource};
use protos_rs::nodes::{indexed_name, AllProtosNodeTemplates, GraphicPassNodeInput, NodeKind};
use protos_rs::shader::Shader;
use protos_rs::texture::{Texture, TextureDescription, TextureSource};
use protos_rs::value::{ProtosDataType, ProtosValueType};

#[test]
fn equal_values_do_not_dirty() {
    let mut b = Buffer::empty();
    b.dirty = false;
    b.set_size(0);
    b.set_format(0);
    assert!(!b.dirty);
    b.set_size(4);
    assert!(b.dirty);

    let mut t = Texture::from_description(TextureDescription::sized(2, 3));
    t.dirty = false;
    t.set_size(2, 3);
    assert!(!t.dirty);
    t.set_height(4);
    assert!(t.dirty);

    let mut t = Texture::from_description(TextureDescription::sized(1, 1));
    t.set_path("a.png".to_string());
    t.dirty = false;
    t.set_path("a.png".to_string());
    assert!(!t.dirty);
    t.set_path("b.png".to_string());
    assert!(t.dirty);
    t.set_bytes(vec![1, 2, 3, 4]);
    t.dirty = false;
    t.set_bytes(vec![1, 2, 3, 4]);
    assert!(!t.dirty);
    t.set_bytes(vec![1, 2, 3, 5]);
    assert!(t.dirty);
}

#[test]
fn pass_setters_track_changes() {
    let mut p = BackbufferPass::empty();
    p.set_origin(2);
    p.set_size(10, 20);
    p.dirty = false;
    p.set_origin(2);
    p.set_size(10, 20);
    assert!(!p.dirty);
    assert_eq!((p.get_width(), p.get_height()), (10, 20));
    p.set_origin(3);
    assert!(p.dirty);

    let mut g = GraphicPass::with_render_targets(vec![7]);
    g.set_shader_resource_view(2, Some(5));
    assert_eq!(g.desc.shader_resource_view, vec![None, None, Some(5)]);
    g.set_render_target(0, 8, 8);
    g.set_geometry(1);
    g.dirty = false;
    g.set_shader_resource_view(2, Some(5));
    g.set_render_target(0, 8, 8);
    g.set_geometry(1);
    assert!(!g.dirty);
    g.set_render_target(0, 9, 8);
    assert!(g.dirty);
    assert_eq!(g.get_render_target(0), None);
}

#[test]
fn mesh_and_shader_sources() {
    let mut m = Mesh::from_source(MeshSource::Shape(MeshShape::default_cube()));
    m.dirty = false;
    m.set_source(MeshSource::Shape(MeshShape::Cube { size_milli: 1000 }));
    assert!(!m.dirty);
    m.set_source(MeshSource::Shape(MeshShape::default_sphere()));
    assert!(m.dirty);
    assert_eq!(MeshShape::default_sphere().get_shape_name(), "Sphere");
    assert_eq!(MeshSource::Path("x.obj".to_string()).get_source_name(), "Path");

    let mut s = Shader::from_source("fn main() {}".to_string());
    s.dirty = false;
    s.set_source("fn main() {}".to_string());
    assert!(!s.dirty);
    s.set_source("fn other() {}".to_string());
    assert!(s.dirty);
}

#[test]
fn default_textures() {
    let check = |d: TextureDescription, bytes: [u8; 4], srgb: bool| {
        assert!(matches!(d.source, TextureSource::Bytes(ref b) if b[..] == bytes[..]));
        assert_eq!((d.width, d.height, d.srgb), (1, 1, srgb));
    };
    check(TextureDescription::default_black_texture().unwrap(), [0, 0, 0, 255], true);
    check(TextureDescription::default_white_texture().unwrap(), [255, 255, 255, 255], true);
    check(TextureDescription::default_missing_texture().unwrap(), [255, 0, 255, 255], true);
    check(TextureDescription::default_normal_texture().unwrap(), [0, 127, 0, 255], false);
    let d = TextureDescription::from_raw_memory(&[9, 9, 9, 9, 8, 8, 8, 8], (2, 1), None, false).unwrap();
    assert_eq!(d.label, "UNKNOWN");
    assert_eq!((d.width, d.height), (2, 1));
}

#[test]
fn handles() {
    assert_eq!(TextureHandle::new(), TextureHandle(0));
    assert_eq!(TextureHandle::invalid(), TextureHandle(u64::MAX));
    assert_eq!(ImageHandle::invalid().0, INVALID_ID);
    assert_eq!(RawBufferHandle::new().0, 0);
    assert_eq!(ConstantBufferHandle::invalid().0, u64::MAX);
    assert_eq!(RenderGraph::new().create_graphic_pass().0, 0);
}

#[test]
fn names() {
    assert_eq!(indexed_name("SRV", 12), "SRV12");
    assert_eq!(GraphicPassNodeInput::ShaderResourceView(0).name(), "SRV0");
    assert_eq!(ProtosDataType::Vec2.name(), "vec2");
    assert_eq!(AllProtosNodeTemplates.all_kinds().len(), 9);
    assert_eq!(AllProtosNodeTemplates.all_kinds()[0], NodeKind::BackbufferPass);
    let mut a = AttachmentDescription::new();
    a.set_size(3, 4);
    assert_eq!(a, AttachmentDescription { width: 3, height: 4 });
}

#[test]
fn value_casts() {
    assert_eq!(ProtosValueType::Scalar(3).try_to_scalar().unwrap(), 3);
    assert_eq!(ProtosValueType::Vec2(1, 2).try_to_vec2().unwrap(), (1, 2));
    assert_eq!(ProtosValueType::Texture(Some(1)).try_to_texture().unwrap(), Some(1));
    assert!(ProtosValueType::Scalar(3).try_to_texture().is_err());
    assert_eq!(ProtosValueType::String("p".to_string()).try_to_string().unwrap(), "p");
    assert_eq!(ProtosValueType::Mesh(None).data_type(), ProtosDataType::Mesh);
}

#[test]
fn texture_from_encoded_png() {
    let mut img = image::RgbaImage::new(2, 1);
    img.put_pixel(0, 0, image::Rgba([10, 20, 30, 255]));
    img.put_pixel(1, 0, image::Rgba([40, 50, 60, 128]));
    let mut encoded = std::io::Cursor::new(Vec::new());
    image::DynamicImage::ImageRgba8(img).write_to(&mut encoded, image::ImageOutputFormat::Png).unwrap();
    let d = TextureDescription::from_bytes(encoded.get_ref(), "logo", true).unwrap();
    assert_eq!((d.width, d.height, d.srgb), (2, 1, true));
    assert_eq!(d.label, "logo");
    assert!(matches!(d.source, TextureSource::Bytes(ref b) if *b == vec![10, 20, 30, 255, 40, 50, 60, 128]));
}

#[test]
fn texture_from_garbage_fails_to_decode() {
    let r = TextureDescription::from_bytes(&[1, 2, 3, 4, 5], "x", false);
    assert!(matches!(r, Err(protos_rs::resource::BuildError::Decode(_))));
}

struct OneTexture {
    built: usize,
}

impl protos_rs::gpu::GpuContext for OneTexture {
    fn create_texture(&mut self, _d: &TextureDescription) -> Result<protos_rs::texture::TextureData, protos_rs::resource::BuildError> {
        self.built += 1;
        Ok(protos_rs::texture::TextureData { texture: TextureHandle(self.built as u64) })
    }
    fn create_buffer(&mut self, _d: &protos_rs::buffer::BufferDescription) -> Result<protos_rs::buffer::BufferData, protos_rs::resource::BuildError> {
        Err(protos_rs::resource::BuildError::InvalidHandle)
    }
    fn create_mesh(&mut self, _d: &protos_rs::mesh::MeshDescription) -> Result<protos_rs::mesh::MeshData, protos_rs::resource::BuildError> {
        Err(protos_rs::resource::BuildError::InvalidHandle)
    }
    fn create_shader(&mut self, _d: &protos_rs::shader::ShaderDescription) -> Result<protos_rs::shader::ShaderData, protos_rs::resource::BuildError> {
        Err(protos_rs::resource::BuildError::InvalidHandle)
    }
    fn create_graphic_pass(&mut self, _l: &protos_rs::gpu::GraphicPassLayout) -> Result<protos_rs::handles::GraphicPassHandle, protos_rs::resource::BuildError> {
        Err(protos_rs::resource::BuildError::InvalidHandle)
    }
    fn create_compute_pass(&mut self, _l: &protos_rs::gpu::ComputePassLayout) -> Result<protos_rs::handles::ComputePassHandle, protos_rs::resource::BuildError> {
        Err(protos_rs::resource::BuildError::InvalidHandle)
    }
}

#[test]
fn update_twice_builds_once() {
    let mut gpu = OneTexture { built: 0 };
    let mut t = Texture::from_description(TextureDescription::sized(4, 4));
    assert!(t.update_data(&mut gpu).is_ok());
    assert!(t.update_data(&mut gpu).is_ok());
    assert_eq!(gpu.built, 1);
    assert_eq!(t.get_handle(), Some(TextureHandle(1)));
    t.set_size(4, 4);
    assert!(t.update_data(&mut gpu).is_ok());
    assert_eq!(gpu.built, 1);
    t.set_size(8, 4);
    assert!(t.update_data(&mut gpu).is_ok());
    assert_eq!(gpu.built, 2);
    assert_eq!(t.get_view_handle(), Some(TextureHandle(2)));
}

#[test]
fn failed_build_keeps_previous_data_and_stays_dirty() {
    let mut gpu = OneTexture { built: 0 };
    let mut b = Buffer::empty();
    assert!(b.update_data(&mut gpu).is_err());
    assert!(b.dirty);
    assert!(!b.has_data());
    assert_eq!(b.record_data().unwrap_err(), protos_rs::resource::RecordError::NoData);
}

#[test]
fn render_target_list_grows() {
    let mut g = GraphicPass::with_render_targets(vec![3]);
    g.dirty = false;
    g.set_render_target(2, 5, 6);
    assert!(g.dirty);
    assert_eq!(
        g.desc.render_target_desc,
        vec![
            AttachmentDescription { width: 0, height: 0 },
            AttachmentDescription { width: 0, height: 0 },
            AttachmentDescription { width: 5, height: 6 }
        ]
    );
}

#[test]
fn failed_build_marks_dirty_even_when_clear() {
    let mut gpu = OneTexture { built: 0 };
    let mut b = Buffer::empty();
    b.dirty = false;
    assert!(b.update_data(&mut gpu).is_err());
    assert!(b.dirty);
}

#[test]
fn default_texture_labels() {
    assert_eq!(TextureDescription::default_black_texture().unwrap().label, "DefaultBlackTexture");
    assert_eq!(TextureDescription::default_white_texture().unwrap().label, "DefaultWhiteTexture");
    assert_eq!(TextureDescription::default_missing_texture().unwrap().label, "DefaultMissingTexture");
    assert_eq!(TextureDescription::default_normal_texture().unwrap().label, "DefaultNormalTexture");
}
