use learnopengl::mesh::{push_decimal, sampler_uniform_names, Texture};
use learnopengl::model::{copy_texture, directory_of, load_material_textures, texture_file_path, textures_to_load};

fn strings(items: &[&str]) -> Vec<String> {
    items.iter().map(|s| s.to_string()).collect()
}

fn texture(id: u32, role: &str, path: &str) -> Texture {
    Texture { id, type_s: role.to_string(), path: path.to_string() }
}

fn shape(ts: &[Texture]) -> Vec<(u32, String, String)> {
    ts.iter().map(|t| (t.id, t.type_s.clone(), t.path.clone())).collect()
}

#[test]
fn decimal_digits_match_to_string() {
    for n in [0u32, 7, 10, 42, 1000, 65535, 4294967295] {
        let mut s = "x".to_string();
        push_decimal(&mut s, n);
        assert_eq!(s, format!("x{}", n));
    }
}

#[test]
fn sampler_names_count_each_role_from_one() {
    let names = sampler_uniform_names(&strings(&[
        "texture_diffuse",
        "texture_specular",
        "texture_diffuse",
        "other",
        "texture_normal",
        "texture_height",
        "texture_height",
    ]));
    assert_eq!(
        names,
        strings(&[
            "texture_diffuse1",
            "texture_specular1",
            "texture_diffuse2",
            "other",
            "texture_normal1",
            "texture_height1",
            "texture_height2",
        ])
    );
    assert!(sampler_uniform_names(&Vec::new()).is_empty());
}

#[test]
fn sampler_names_reach_two_digits() {
    let types = vec!["texture_specular".to_string(); 10];
    let names = sampler_uniform_names(&types);
    assert_eq!(names[8], "texture_specular9");
    assert_eq!(names[9], "texture_specular10");
}

#[test]
fn default_texture_is_empty() {
    let t = Texture::default();
    assert_eq!(t.id, 0);
    assert!(t.type_s.is_empty() && t.path.is_empty());
}

#[test]
fn model_directory_and_texture_paths() {
    assert_eq!(directory_of("resources/objects/backpack/backpack.obj"), "resources/objects/backpack");
    assert_eq!(directory_of("/model.obj"), "");
    assert_eq!(directory_of("a/b/"), "a/b");
    let dir = "resources/objects/backpack".to_string();
    assert_eq!(texture_file_path(&dir, "diffuse.jpg"), "resources/objects/backpack/diffuse.jpg");
}

#[test]
fn copy_keeps_every_field() {
    let t = texture(4, "texture_normal", "n.png");
    let c = copy_texture(&t);
    assert_eq!(shape(&[c]), shape(&[t]));
}

#[test]
fn files_to_load_skip_cached_and_repeated_files() {
    let loaded = vec![texture(1, "texture_diffuse", "a.png")];
    let files = strings(&["a.png", "b.png", "c.png", "b.png"]);
    assert_eq!(textures_to_load(&loaded, &files), strings(&["b.png", "c.png"]));
    assert!(textures_to_load(&loaded, &strings(&["a.png"])).is_empty());
}

#[test]
fn material_textures_reuse_cached_files() {
    let mut loaded = vec![texture(1, "texture_diffuse", "a.png")];
    let files = strings(&["a.png", "b.png", "b.png", "c.png"]);
    let role = "texture_specular".to_string();
    let out = load_material_textures(&mut loaded, &files, &role, &vec![20, 30]);
    assert_eq!(
        shape(&out),
        vec![
            (1, "texture_diffuse".to_string(), "a.png".to_string()),
            (20, "texture_specular".to_string(), "b.png".to_string()),
            (20, "texture_specular".to_string(), "b.png".to_string()),
            (30, "texture_specular".to_string(), "c.png".to_string()),
        ]
    );
    assert_eq!(
        shape(&loaded),
        vec![
            (1, "texture_diffuse".to_string(), "a.png".to_string()),
            (20, "texture_specular".to_string(), "b.png".to_string()),
            (30, "texture_specular".to_string(), "c.png".to_string()),
        ]
    );
    let again = load_material_textures(&mut loaded, &strings(&["c.png"]), &role, &Vec::new());
    assert_eq!(again[0].id, 30);
    assert_eq!(loaded.len(), 3);
}

#[test]
fn mesh_draw_sampler_names() {
    let names = sampler_uniform_names(&strings(&["texture_diffuse", "texture_diffuse", "texture_specular"]));
    assert_eq!(names, strings(&["texture_diffuse1", "texture_diffuse2", "texture_specular1"]));
}
