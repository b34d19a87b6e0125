use learnopengl::filesystem::{get_path, get_path_builder, get_path_relative_binary, get_path_relative_root, PathBuilder};

#[test]
fn path_is_relative_to_binary_without_recorded_root() {
    assert_eq!(get_path_builder(""), PathBuilder::RelativeBinary);
    assert_eq!(
        get_path("", "resources/textures/awesomeface.png".to_string()),
        "../../../resources/textures/awesomeface.png"
    );
}

#[test]
fn path_is_relative_to_recorded_root() {
    assert_eq!(get_path_builder("/home/u/LearnOpenGL"), PathBuilder::RelativeRoot);
    assert_eq!(
        get_path("/home/u/LearnOpenGL", "resources/levels/one.lvl".to_string()),
        "/home/u/LearnOpenGL/resources/levels/one.lvl"
    );
}

#[test]
fn builders_prefix_the_path() {
    assert_eq!(get_path_relative_binary("a/b".to_string()), "../../../a/b");
    assert_eq!(get_path_relative_root("r", "a/b".to_string()), "r/a/b");
    assert_eq!(PathBuilder::RelativeRoot.build("", "x".to_string()), "/x");
    assert_eq!(PathBuilder::RelativeRoot.build("root", "x".to_string()), "root/x");
    assert_eq!(PathBuilder::RelativeBinary.build("root", String::new()), "../../../");
}
