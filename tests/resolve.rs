use hkx_tools::inputs::InputList;
use hkx_tools::path::FilePath;
use hkx_tools::resolve::{find_common_parent_dir, get_output_path, output_extension, output_file_name, PathError};
use hkx_tools::tools::{ConversionMode, OutputFormat};

fn p(s: &str) -> FilePath {
    FilePath::parse(s)
}

fn batch(files: &[&str]) -> Vec<FilePath> {
    files.iter().map(|f| p(f)).collect()
}

fn out(
    input: &str,
    root: &str,
    files: &[&str],
    suffix: &str,
    custom: Option<&str>,
    mode: ConversionMode,
    format: OutputFormat,
) -> Result<String, PathError> {
    let custom = custom.map(|c| c.to_string());
    get_output_path(&p(input), &p(root), &batch(files), suffix, &custom, mode, format).map(|o| o.to_text())
}

#[test]
fn single_file_lands_next_to_itself() {
    let mut list = InputList::new();
    list.replace(&batch(&["C:/anims/walk.hkx"]));
    let root = list.default_output_folder().unwrap();
    assert_eq!(root.to_text(), "C:/anims");
    let r = get_output_path(
        &p("C:/anims/walk.hkx"),
        &root,
        list.paths(),
        "",
        &None,
        ConversionMode::Regular,
        OutputFormat::Xml,
    )
    .unwrap();
    assert_eq!(r.to_text(), "C:/anims/walk.xml");
}

#[test]
fn two_files_keep_their_subdirectories() {
    let files = ["C:/a/x/f1.hkx", "C:/a/y/f2.hkx"];
    let o1 = out("C:/a/x/f1.hkx", "C:/out", &files, "", None, ConversionMode::Regular, OutputFormat::Xml);
    let o2 = out("C:/a/y/f2.hkx", "C:/out", &files, "", None, ConversionMode::Regular, OutputFormat::Xml);
    assert_eq!(o1, Ok("C:/out/x/f1.xml".to_string()));
    assert_eq!(o2, Ok("C:/out/y/f2.xml".to_string()));
}

#[test]
fn deep_common_ancestor_layout() {
    let files = ["C:/game/meshes/actors/x/f1.hkx", "C:/game/meshes/actors/y/z/f2.hkx", "C:/game/meshes/actors/f3.hkx"];
    let common = find_common_parent_dir(&batch(&files)).unwrap();
    assert_eq!(common.to_text(), "C:/game/meshes/actors");
    let f = ConversionMode::Regular;
    assert_eq!(
        out(files[0], "D:/out", &files, "", None, f, OutputFormat::SkyrimSE),
        Ok("D:/out/x/f1.hkx".to_string())
    );
    assert_eq!(
        out(files[1], "D:/out", &files, "", None, f, OutputFormat::SkyrimSE),
        Ok("D:/out/y/z/f2.hkx".to_string())
    );
    assert_eq!(
        out(files[2], "D:/out", &files, "", None, f, OutputFormat::SkyrimSE),
        Ok("D:/out/f3.hkx".to_string())
    );
}

#[test]
fn single_file_is_flat_under_root() {
    let files = ["C:/deep/nested/dir/walk.hkx"];
    assert_eq!(
        out(files[0], "E:/o", &files, "", None, ConversionMode::Regular, OutputFormat::Xml),
        Ok("E:/o/walk.xml".to_string())
    );
}

#[test]
fn divergent_roots_fall_back_to_flat() {
    let files = ["C:/a/f1.hkx", "D:/b/f2.hkx"];
    assert!(find_common_parent_dir(&batch(&files)).is_none());
    assert_eq!(
        out(files[0], "E:/o", &files, "", None, ConversionMode::Regular, OutputFormat::Xml),
        Ok("E:/o/f1.xml".to_string())
    );
    assert_eq!(
        out(files[1], "E:/o", &files, "", None, ConversionMode::Regular, OutputFormat::Xml),
        Ok("E:/o/f2.xml".to_string())
    );
}

#[test]
fn relative_and_absolute_inputs_fall_back_to_flat() {
    let files = ["x/f1.hkx", "/y/f2.hkx"];
    assert!(find_common_parent_dir(&batch(&files)).is_none());
    assert_eq!(
        out(files[0], "/out", &files, "", None, ConversionMode::Regular, OutputFormat::Xml),
        Ok("/out/f1.xml".to_string())
    );
    assert_eq!(
        out(files[1], "/out", &files, "", None, ConversionMode::Regular, OutputFormat::Xml),
        Ok("/out/f2.xml".to_string())
    );
}

#[test]
fn separators_in_the_name_open_subdirectories() {
    let files = ["C:/a/walk.hkx"];
    assert_eq!(
        out(files[0], "C:/o", &files, "a/b", None, ConversionMode::Regular, OutputFormat::Xml),
        Ok("C:/o/walk_a/b.xml".to_string())
    );
    assert_eq!(
        out(files[0], "C:/o", &files, "", Some("x\\y"), ConversionMode::Regular, OutputFormat::Xml),
        Ok("C:/o/walk.x/y".to_string())
    );
    let dotted = ["d/..x"];
    assert_eq!(
        out(dotted[0], "C:/o", &dotted, "", Some(""), ConversionMode::Regular, OutputFormat::Xml),
        Ok("C:/o/..".to_string())
    );
    let trailing = out(files[0], "C:/o", &files, "v/", None, ConversionMode::Regular, OutputFormat::Xml).unwrap();
    assert_eq!(trailing, "C:/o/walk_v/.xml");
    assert_eq!(p(&trailing).extension(), None);
}

#[test]
fn empty_batch_has_no_common_parent() {
    assert!(find_common_parent_dir(&Vec::new()).is_none());
}

#[test]
fn default_extension_follows_mode_and_format() {
    let files = ["C:/a/walk.kf"];
    let cases = [
        (ConversionMode::Regular, OutputFormat::Xml, "C:/o/walk.xml"),
        (ConversionMode::Regular, OutputFormat::SkyrimLE, "C:/o/walk.hkx"),
        (ConversionMode::Regular, OutputFormat::SkyrimSE, "C:/o/walk.hkx"),
        (ConversionMode::KfToHkx, OutputFormat::Xml, "C:/o/walk.hkx"),
        (ConversionMode::HkxToKf, OutputFormat::SkyrimSE, "C:/o/walk.kf"),
    ];
    for (mode, format, expected) in cases {
        let o = out(files[0], "C:/o", &files, "", None, mode, format).unwrap();
        assert_eq!(o, expected);
        assert_eq!(p(&o).extension().as_deref(), Some(mode.default_extension(format)));
    }
}

#[test]
fn custom_extension_overrides_mode_and_format() {
    let files = ["C:/a/walk.hkx"];
    for mode in [ConversionMode::Regular, ConversionMode::KfToHkx, ConversionMode::HkxToKf] {
        for format in [OutputFormat::Xml, OutputFormat::SkyrimLE, OutputFormat::SkyrimSE] {
            let o = out(files[0], "C:/o", &files, "", Some("bin"), mode, format).unwrap();
            assert_eq!(o, "C:/o/walk.bin");
            assert_eq!(p(&o).extension().as_deref(), Some("bin"));
        }
    }
    assert_eq!(output_extension(&Some("tmp".to_string()), ConversionMode::Regular, OutputFormat::Xml), "tmp");
    assert_eq!(output_extension(&None, ConversionMode::HkxToKf, OutputFormat::Xml), "kf");
}

#[test]
fn suffix_goes_before_extension() {
    let files = ["C:/a/walk.hkx"];
    assert_eq!(
        out(files[0], "C:/o", &files, "le", None, ConversionMode::Regular, OutputFormat::SkyrimLE),
        Ok("C:/o/walk_le.hkx".to_string())
    );
    assert_eq!(output_file_name("walk", "", "xml"), "walk.xml");
    assert_eq!(output_file_name("walk", "v2", "xml"), "walk_v2.xml");
    assert_eq!(output_file_name("a.tar", "x", "gz"), "a.tar_x.gz");
}

#[test]
fn resolving_twice_gives_the_same_path() {
    let files = ["C:/a/x/f1.hkx", "C:/a/y/f2.hkx"];
    let first = out(files[0], "C:/out", &files, "s", Some("e"), ConversionMode::KfToHkx, OutputFormat::Xml);
    let second = out(files[0], "C:/out", &files, "s", Some("e"), ConversionMode::KfToHkx, OutputFormat::Xml);
    assert_eq!(first, second);
    assert_eq!(first, Ok("C:/out/x/f1_s.e".to_string()));
}

#[test]
fn input_without_stem_fails() {
    let files = ["C:/a/..", "C:/a/b.hkx"];
    assert_eq!(
        out(files[0], "C:/o", &files, "", None, ConversionMode::Regular, OutputFormat::Xml),
        Err(PathError::NoFileStem)
    );
    assert_eq!(
        out("/", "C:/o", &["/"], "", None, ConversionMode::Regular, OutputFormat::Xml),
        Err(PathError::NoFileStem)
    );
}
