use gsm::utils::default_output_path;
use gsm::utils::get_output_path;
use gsm::utils::has_yaml_ext;
use gsm::utils::plan_batch;

#[test]
fn output_path_keeps_parent_and_stem() {
    assert_eq!(
        get_output_path("configs/prod.yaml", "encrypted", "yaml"),
        "configs/prod.encrypted.yaml"
    );
    assert_eq!(
        get_output_path("/a/b/c.tar.gz", "processed", "gz"),
        "/a/b/c.tar.processed.gz"
    );
}

#[test]
fn output_path_without_parent_or_extension() {
    assert_eq!(get_output_path("prod.yaml", "encrypted", "yaml"), "prod.encrypted.yaml");
    assert_eq!(get_output_path("dir/file", "enc", "yaml"), "dir/file.enc.yaml");
    assert_eq!(get_output_path(".hidden", "enc", "yaml"), ".hidden.enc.yaml");
}

#[test]
fn default_output_path_keeps_foreign_extension() {
    assert_eq!(default_output_path("prod.yaml", "encrypted"), "prod.encrypted.yaml");
    assert_eq!(default_output_path("prod.conf", "encrypted"), "prod.encrypted.conf");
    assert_eq!(default_output_path("prod", "decrypted"), "prod.decrypted.yaml");
    assert_eq!(
        default_output_path("dir/prod.yaml", "decrypted"),
        "dir/prod.decrypted.yaml"
    );
}

#[test]
fn yaml_extension_detection() {
    assert!(has_yaml_ext("a.yaml"));
    assert!(has_yaml_ext("a.b.yaml"));
    assert!(!has_yaml_ext("a.yml"));
    assert!(!has_yaml_ext("yaml"));
    assert!(!has_yaml_ext(".yaml"));
    assert!(!has_yaml_ext("a.yaml.bak"));
}

#[test]
fn batch_picks_exactly_the_yaml_files() {
    let names = vec![
        "a.yaml".to_string(),
        "notes.txt".to_string(),
        "b.yaml".to_string(),
        "c.yaml".to_string(),
        ".yaml".to_string(),
    ];
    let picked = plan_batch(&names);
    assert_eq!(
        picked,
        vec!["a.yaml".to_string(), "b.yaml".to_string(), "c.yaml".to_string()]
    );
}

#[test]
fn batch_of_three_yaml_files_plans_three_outputs() {
    let names = vec![
        "one.yaml".to_string(),
        "two.yaml".to_string(),
        "three.yaml".to_string(),
    ];
    let picked = plan_batch(&names);
    assert_eq!(picked.len(), 3);
    assert_eq!(picked, names);
}
