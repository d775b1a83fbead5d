use image_batch::collect::{collect_file_tasks, PathKind, PathScan};
use image_batch::types::{FileTask, OptimizeConfig, RunError};

fn config(tasks: Vec<FileTask>, replace: bool, output_dir: Option<String>) -> OptimizeConfig {
    OptimizeConfig {
        tasks,
        jpg_q: 75,
        png_min: 60,
        png_max: 80,
        webp: false,
        avif: false,
        optimize_original: true,
        replace,
        output_dir,
    }
}

fn task(path: &str, root: &str) -> FileTask {
    FileTask { path: path.to_string(), root: root.to_string() }
}

fn dir(files: &[&str]) -> PathScan {
    PathScan { kind: PathKind::Directory, root_is_dir: true, files: files.iter().map(|f| f.to_string()).collect() }
}

fn file() -> PathScan {
    PathScan { kind: PathKind::File, root_is_dir: false, files: vec![] }
}

fn missing() -> PathScan {
    PathScan { kind: PathKind::Missing, root_is_dir: false, files: vec![] }
}

#[test]
fn nothing_qualifies_gives_empty_input() {
    let c = config(vec![task("/d", "/d"), task("/gone.png", "/gone.png"), task("/x__optimized.png", "/x__optimized.png")], true, None);
    let scans = vec![dir(&["/d/readme.txt", "/d/b.gif"]), missing(), file()];
    let r = collect_file_tasks(&c, &scans);
    assert!(matches!(r, Err(RunError::EmptyInput)));
    let r = collect_file_tasks(&config(vec![], true, None), &vec![]);
    assert!(matches!(r, Err(RunError::EmptyInput)));
}

#[test]
fn tasks_are_sorted_and_deduplicated() {
    let c = config(vec![task("/d", "/d"), task("\"/d/a.png\"", "/d/a.png")], false, None);
    let scans = vec![dir(&["/d/c.jpg", "/d/a.png", "/d/b.txt", "/d/B.JPEG"]), file()];
    let r = collect_file_tasks(&c, &scans).unwrap();
    let got: Vec<(String, String)> = r.iter().map(|t| (t.source.clone(), t.dest.clone())).collect();
    assert_eq!(
        got,
        vec![
            ("/d/B.JPEG".to_string(), "/d/B__optimized.JPEG".to_string()),
            ("/d/a.png".to_string(), "/d/a__optimized.png".to_string()),
            ("/d/c.jpg".to_string(), "/d/c__optimized.jpg".to_string()),
        ]
    );
}

#[test]
fn first_pair_of_a_source_is_kept() {
    let out = Some("/out".to_string());
    let c = config(vec![task("/in/pics", "/in/pics"), task("/in/pics/a.png", "/in/pics/a.png")], false, out);
    let scans = vec![dir(&["/in/pics/a.png"]), file()];
    let r = collect_file_tasks(&c, &scans).unwrap();
    assert_eq!(r.len(), 1);
    assert_eq!(r[0].dest, "/out/pics/a.png");
}

#[test]
fn resolution_is_deterministic() {
    let c = config(vec![task("/d", "/d"), task("/e/z.png", "/e/z.png")], false, Some("/o".to_string()));
    let scans = vec![dir(&["/d/y.png", "/d/sub/x.jpg", "/d/a.png"]), file()];
    let a = collect_file_tasks(&c, &scans).unwrap();
    let b = collect_file_tasks(&c, &scans).unwrap();
    assert_eq!(a, b);
    let srcs: Vec<&str> = a.iter().map(|t| t.source.as_str()).collect();
    assert_eq!(srcs, vec!["/d/a.png", "/d/sub/x.jpg", "/d/y.png", "/e/z.png"]);
    assert_eq!(a[1].dest, "/o/d/sub/x.jpg");
    assert_eq!(a[3].dest, "/o/z.png");
}
