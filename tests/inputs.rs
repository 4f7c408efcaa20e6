use hkx_tools::inputs::{accepts_file, FileEntry, InputList};
use hkx_tools::path::FilePath;
use hkx_tools::tools::{ConverterTool, InputFileExtension};

fn p(s: &str) -> FilePath {
    FilePath::parse(s)
}

fn texts(list: &InputList) -> Vec<String> {
    list.paths().iter().map(|q| q.to_text()).collect()
}

#[test]
fn filter_per_tool() {
    let all = InputFileExtension::All;
    assert!(accepts_file(all, ConverterTool::HkxCmd, &p("a.kf")));
    assert!(accepts_file(all, ConverterTool::HkxCmd, &p("a.xml")));
    assert!(!accepts_file(all, ConverterTool::HkxC, &p("a.kf")));
    assert!(accepts_file(all, ConverterTool::HkxConv, &p("a.xml")));
    assert!(!accepts_file(all, ConverterTool::Hct, &p("a.xml")));
    assert!(accepts_file(all, ConverterTool::HavokBehaviorPostProcess, &p("a.hkx")));
    assert!(!accepts_file(all, ConverterTool::HkxCmd, &p("a.txt")));
    assert!(!accepts_file(all, ConverterTool::HkxCmd, &p("noext")));
    assert!(!accepts_file(all, ConverterTool::HkxCmd, &p("a.HKX")));
    assert!(accepts_file(InputFileExtension::Kf, ConverterTool::HkxCmd, &p("a.kf")));
    assert!(!accepts_file(InputFileExtension::Xml, ConverterTool::HkxCmd, &p("a.hkx")));
}

#[test]
fn add_file_keeps_order_and_rejects_duplicates() {
    let mut list = InputList::new();
    let t = ConverterTool::HkxCmd;
    let f = InputFileExtension::All;
    assert!(list.add_file(p("C:/a/b.hkx"), true, f, t));
    assert!(list.add_file(p("C:/a/a.xml"), true, f, t));
    assert!(!list.add_file(p("C:\\a\\b.hkx"), true, f, t));
    assert!(!list.add_file(p("C:/a/dir.hkx"), false, f, t));
    assert!(!list.add_file(p("C:/a/c.txt"), true, f, t));
    assert_eq!(texts(&list), vec!["C:/a/b.hkx", "C:/a/a.xml"]);
    assert!(list.contains(&p("C:/a/a.xml")));
    assert_eq!(list.len(), 2);
}

#[test]
fn add_files_counts_what_was_added() {
    let mut list = InputList::new();
    let entries = vec![
        FileEntry { path: p("/d/a.hkx"), is_file: true },
        FileEntry { path: p("/d/sub"), is_file: false },
        FileEntry { path: p("/d/b.kf"), is_file: true },
        FileEntry { path: p("/d/a.hkx"), is_file: true },
        FileEntry { path: p("/d/c.xml"), is_file: true },
    ];
    let added = list.add_files(&entries, InputFileExtension::All, ConverterTool::HkxC);
    assert_eq!(added, 2);
    assert_eq!(texts(&list), vec!["/d/a.hkx", "/d/c.xml"]);
    let again = list.add_files(&entries, InputFileExtension::All, ConverterTool::HkxCmd);
    assert_eq!(again, 1);
    assert_eq!(texts(&list), vec!["/d/a.hkx", "/d/c.xml", "/d/b.kf"]);
}

#[test]
fn replace_remove_clear() {
    let mut list = InputList::new();
    list.replace(&vec![p("/x/1.hkx"), p("/x/2.hkx"), p("/x/1.hkx"), p("/x/3.txt")]);
    assert_eq!(texts(&list), vec!["/x/1.hkx", "/x/2.hkx", "/x/3.txt"]);
    list.remove(1);
    assert_eq!(texts(&list), vec!["/x/1.hkx", "/x/3.txt"]);
    assert_eq!(list.default_output_folder().unwrap().to_text(), "/x");
    list.clear();
    assert_eq!(list.len(), 0);
    assert!(list.default_output_folder().is_none());
}
