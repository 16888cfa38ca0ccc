use depctl::tasks::file_task::FileTask;
use depctl::tasks::unpack::UnpackStep;
use std::io::{Cursor, Write};

fn show(steps: &[UnpackStep]) -> Vec<String> {
    steps
        .iter()
        .map(|s| match s {
            UnpackStep::Remove(p) => format!("remove {}", p),
            UnpackStep::CreateDir(p) => format!("mkdir {}", p),
            UnpackStep::Symlink { path, target } => format!("link {} -> {}", path, target),
            UnpackStep::WriteFile { path, data } => format!("write {} {:?}", path, String::from_utf8_lossy(data)),
            UnpackStep::Unpack { index, path } => format!("unpack {} {}", index, path),
            UnpackStep::Fail(p) => format!("fail {}", p),
        })
        .collect()
}

fn sample_zip() -> Vec<u8> {
    let mut w = zip::ZipWriter::new(Cursor::new(Vec::new()));
    let opts = zip::write::SimpleFileOptions::default();
    w.add_directory("top/", opts).unwrap();
    w.start_file("top/a.txt", opts).unwrap();
    w.write_all(b"A").unwrap();
    w.start_file("__MACOSX/top/._a.txt", opts).unwrap();
    w.write_all(b"meta").unwrap();
    w.start_file("top/.DS_Store", opts).unwrap();
    w.write_all(b"ds").unwrap();
    w.start_file("other/b.txt", opts).unwrap();
    w.write_all(b"B").unwrap();
    w.add_symlink("link", " top/a.txt\n", opts).unwrap();
    w.finish().unwrap().into_inner()
}

#[test]
fn zip_plan_removes_roots_then_unpacks_in_order() {
    let steps = match FileTask::unzip_zip(&sample_zip(), "/out", true) {
        Some(s) => s,
        None => panic!("archive refused"),
    };
    assert_eq!(
        show(&steps),
        vec![
            "remove /out/top",
            "remove /out/other",
            "remove /out/link",
            "mkdir /out/top/",
            "mkdir /out/top",
            "write /out/top/a.txt \"A\"",
            "mkdir /out/other",
            "write /out/other/b.txt \"B\"",
            "mkdir /out",
            "link /out/link -> top/a.txt",
        ]
    );
}

#[test]
fn zip_plan_writes_links_as_files_without_unix() {
    let steps = FileTask::unzip_zip(&sample_zip(), "/out", false).unwrap();
    assert_eq!(show(&steps).last().unwrap(), "write /out/link \" top/a.txt\\n\"");
}

#[test]
fn zip_plan_refuses_damaged_archive() {
    assert!(FileTask::unzip_zip(b"not a zip archive", "/out", true).is_none());
}

fn sample_tar_bz2() -> Vec<u8> {
    let mut b = tar::Builder::new(Vec::new());
    let mut h = tar::Header::new_gnu();
    h.set_size(1);
    h.set_mode(0o644);
    h.set_cksum();
    b.append_data(&mut h, "d/f.txt", &b"F"[..]).unwrap();
    let mut l = tar::Header::new_gnu();
    l.set_entry_type(tar::EntryType::Symlink);
    l.set_size(0);
    b.append_link(&mut l, "d/l", "f.txt").unwrap();
    let data = b.into_inner().unwrap();
    let mut enc = bzip2::write::BzEncoder::new(Vec::new(), bzip2::Compression::default());
    enc.write_all(&data).unwrap();
    enc.finish().unwrap()
}

#[test]
fn tar_plan_unpacks_entries_and_links() {
    let steps = FileTask::decompress_tar_bz2(&sample_tar_bz2(), "/out", true);
    assert_eq!(show(&steps), vec!["mkdir /out/d", "unpack 0 /out/d/f.txt", "mkdir /out/d", "link /out/d/l -> f.txt"]);
    let steps = FileTask::decompress_tar_bz2(&sample_tar_bz2(), "/out", false);
    assert_eq!(show(&steps), vec!["mkdir /out/d", "unpack 0 /out/d/f.txt", "mkdir /out/d", "unpack 1 /out/d/l"]);
}

#[test]
fn tar_plan_stops_on_damaged_archive() {
    let steps = FileTask::decompress_tar_bz2(b"garbage", "/out", true);
    assert_eq!(show(&steps), vec!["fail /out"]);
}
