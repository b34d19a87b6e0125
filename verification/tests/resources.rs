use learnopengl::post_processor::PostProcessor;
use learnopengl::resource_manager::{get_shader, get_texture, load_shader, load_texture, Registry, ResourceManager};
use learnopengl::shader::Shader;
use learnopengl::shader_m;
use learnopengl::sprite_renderer::SpriteRenderer;
use learnopengl::texture::Texture2D;

#[test]
fn loaded_texture_is_found_again() {
    let mut r = ResourceManager::new();
    let stored = load_texture(&mut r, Texture2D::new(3), "face".to_string());
    assert_eq!(stored.id, 3);
    assert_eq!(get_texture(&r, "face".to_string()).id, 3);
}

#[test]
fn loading_a_name_twice_keeps_the_first() {
    let mut r = ResourceManager::new();
    load_texture(&mut r, Texture2D::new(3), "face".to_string());
    let stored = load_texture(&mut r, Texture2D::new(9), "face".to_string());
    assert_eq!(stored.id, 3);
    assert_eq!(get_texture(&r, "face".to_string()).id, 3);
}

#[test]
fn loading_keeps_other_names() {
    let mut r = ResourceManager::new();
    load_texture(&mut r, Texture2D::new(3), "face".to_string());
    load_texture(&mut r, Texture2D::new(4), "background".to_string());
    load_shader(&mut r, Shader { id: 11 }, "sprite".to_string());
    assert_eq!(get_texture(&r, "face".to_string()).id, 3);
    assert_eq!(get_texture(&r, "background".to_string()).id, 4);
    assert_eq!(get_shader(&r, "sprite".to_string()).id, 11);
    let again = load_shader(&mut r, Shader { id: 12 }, "sprite".to_string());
    assert_eq!(again.id, 11);
    let other = load_shader(&mut r, Shader { id: 13 }, "particle".to_string());
    assert_eq!(other.id, 13);
}

#[test]
fn registry_contains_and_values() {
    let mut reg: Registry<u32> = Registry::new();
    assert!(!reg.contains(&"a".to_string()));
    assert_eq!(reg.insert_if_absent("a".to_string(), 1), 1);
    assert_eq!(reg.insert_if_absent("b".to_string(), 2), 2);
    assert_eq!(reg.insert_if_absent("a".to_string(), 3), 1);
    assert!(reg.contains(&"a".to_string()));
    assert_eq!(reg.get(&"b".to_string()), 2);
    assert_eq!(reg.values(), vec![1, 2]);
}

#[test]
fn texture_defaults_follow_gl_constants() {
    let t = Texture2D::new(5);
    assert_eq!(t.id, 5);
    assert_eq!((t.width, t.height), (0, 0));
    assert_eq!(t.internal_format, 0x1907);
    assert_eq!(t.image_format, 0x1907);
    assert_eq!((t.wrap_s, t.wrap_t), (0x2901, 0x2901));
    assert_eq!((t.filter_min, t.filter_max), (0x2601, 0x2601));
}

#[test]
fn texture_alpha_and_size() {
    let mut t = Texture2D::new(5);
    t.use_alpha();
    assert_eq!(t.internal_format, 0x1908);
    assert_eq!(t.image_format, 0x1908);
    t.set_size(64, 32);
    assert_eq!((t.width, t.height), (64, 32));
    assert_eq!(t.wrap_s, 0x2901);
}

#[test]
fn shader_handles() {
    assert_eq!(Shader::new().id, 0);
    assert_eq!(shader_m::Shader::from_program(42).id(), 42);
}

#[test]
fn sprite_renderer_keeps_its_objects() {
    let s = SpriteRenderer::new(Shader { id: 6 }, 9);
    assert_eq!(s.get_shader(), Shader { id: 6 });
    assert_eq!(s.get_quad_vao(), 9);
}

#[test]
fn post_processor_starts_without_effects() {
    let mut p = PostProcessor::new(Shader { id: 1 }, Texture2D::new(2), 800, 600, 3, 4, 5, 6);
    assert!(!p.confuse && !p.chaos && !p.shake);
    assert_eq!((p.msfbo, p.fbo, p.rbo, p.vao), (3, 4, 5, 6));
    assert_eq!(p.effect_uniforms(), (0, 0, 0));
    p.chaos = true;
    p.shake = true;
    assert_eq!(p.effect_uniforms(), (0, 1, 1));
}

#[test]
fn texture_description_for_an_image() {
    let t = Texture2D::for_image(4, true, 64, 32);
    assert_eq!((t.id, t.width, t.height), (4, 64, 32));
    assert_eq!((t.internal_format, t.image_format), (0x1908, 0x1908));
    assert_eq!((t.wrap_s, t.filter_max), (0x2901, 0x2601));
    let t = Texture2D::for_image(5, false, 2, 3);
    assert_eq!((t.internal_format, t.image_format), (0x1907, 0x1907));
    assert_eq!((t.width, t.height), (2, 3));
}
