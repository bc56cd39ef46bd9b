use std::io::Write;

use bookokrat::pdf::synctex::{
    answer_line, normalize_path_str, normalized_pdf_identity, numeral, parse_box, parse_command,
    parse_element, read_reply, reply_error, send_forward_command, sidecar_paths, stable_path_hash,
    synctex_socket_path, BoxContext, Distance, ForwardReply, PageElement, SyncTexCommand,
    SyncTexError, SyncTexScanner,
};

const SP_TO_PT: f64 = 65781.76;

fn assert_approx_eq(actual: f64, expected: f64, epsilon: f64, context: &str) {
    assert!(
        (actual - expected).abs() < epsilon,
        "{context}: expected {expected}, got {actual}"
    );
}

fn number(s: &str) -> f64 {
    s.parse().unwrap()
}

/// Left edge, bottom, width and height of a box in points.
fn geometry(b: &BoxContext) -> (f64, f64, f64, f64) {
    (
        number(&b.h) / SP_TO_PT,
        (number(&b.v) + number(&b.depth)) / SP_TO_PT,
        number(&b.width) / SP_TO_PT,
        (number(&b.height) + number(&b.depth)) / SP_TO_PT,
    )
}

fn distance(e: &PageElement, x: f64, y: f64) -> Option<Distance> {
    let h = number(&e.element.h) / SP_TO_PT;
    let width = e.element.width.as_ref().map_or(0.0, |w| number(w)) / SP_TO_PT;
    let (bottom, height) = match &e.parent {
        Some(b) => (geometry(b).1, geometry(b).3),
        None => (number(&e.element.v) / SP_TO_PT, 0.0),
    };
    if width <= 0.0 && height <= 0.0 {
        return None;
    }
    let top = bottom - height;
    let vertical = if y >= top && y <= bottom {
        0.0
    } else {
        (y - bottom).abs().min((y - top).abs())
    };
    let horizontal = if x >= h && x <= h + width {
        0.0
    } else {
        (x - h).abs().min((x - (h + width)).abs())
    };
    let d: f64 = vertical * 10.0 + horizontal;
    Some(Distance { comparable: !d.is_nan(), order: d.to_bits() })
}

fn inverse(s: &SyncTexScanner, page: usize, x: f64, y: f64) -> Option<(String, u32)> {
    let distances: Vec<Option<Distance>> =
        s.page_elements().iter().map(|e| distance(e, x, y)).collect();
    s.inverse_search(page, &distances).map(|r| (r.file, r.line))
}

fn chars(s: &str) -> Vec<char> {
    s.chars().collect()
}

const MAIN: &str = "SyncTeX Version:1
Input:1:/home/user/doc/./test_main.tex
Input:2:/usr/share/texmf/article.cls
Output:pdf
Magnification:1000
Unit:1
X Offset:0
Y Offset:0
Content:
!1037
{1
[1,20:4736286,47108178:29260808,42372176,0
(1,8:8799518,8000000:26214400,540671,160563
h1,7:8799518,8000000:0,0,0
g1,8:9799518,8000000
x1,8:10799518,8000000
k1,9:11799518,8000000:655360
)
]
!500
}1
Input:3:/home/user/doc/./input_files/chapter_one.tex
{2
[3,2:4736286,47108178:29260808,42372176,0
(3,4:8799518,9000000:26214400,540671,160563
$3,4:9799518,9000000
)
]
}2
{3
}3
Postamble:
Count:42
Input:9:/never/read.tex
";

fn main_scanner() -> SyncTexScanner {
    SyncTexScanner::parse(MAIN).unwrap()
}

fn gzipped(s: &str) -> Vec<u8> {
    let mut e = flate2::write::GzEncoder::new(Vec::new(), flate2::Compression::default());
    e.write_all(s.as_bytes()).unwrap();
    e.finish().unwrap()
}

#[test]
fn test_main_parse() {
    let scanner = main_scanner();
    assert_eq!(scanner.page_count(), 3);
    let input1 = scanner.inputs().get(&1).expect("Missing input 1");
    assert!(input1.ends_with("test_main.tex"));
}

#[test]
fn test_comprehensive_parse() {
    let mut content = String::from("SyncTeX Version:1\nInput:1:/home/user/doc/./test_comprehensive.tex\nContent:\n");
    for page in 1..=20 {
        content.push_str(&format!("{{{page}\n(1,{page}:0,0:10,10,0\nx1,{page}:0,0\n)\n}}{page}\n"));
    }
    content.push_str("Postamble:\n");
    let scanner = SyncTexScanner::parse(&content).unwrap();
    assert_eq!(scanner.page_count(), 20);
    let input1 = scanner.inputs().get(&1).expect("Missing input 1");
    assert!(input1.ends_with("test_comprehensive.tex"));
}

#[test]
fn inputs_between_pages_count_and_those_behind_the_end_do_not() {
    let scanner = main_scanner();
    assert_eq!(scanner.inputs().len(), 3);
    assert_eq!(scanner.inputs()[&3], "/home/user/doc/./input_files/chapter_one.tex");
    assert!(scanner.inputs().get(&9).is_none());
}

#[test]
fn forward_search_gives_the_box() {
    let scanner = main_scanner();
    let r = scanner.forward_search("test_main.tex", 8, 1).unwrap();
    assert_eq!(r.page, 1);
    let (h, v, w, height) = geometry(&r.place);
    assert_approx_eq(h, 133.768, 0.01, "h");
    assert_approx_eq(v, 124.055, 0.01, "v");
    assert_approx_eq(w, 398.506, 0.01, "W");
    assert_approx_eq(height, 10.660, 0.01, "H");
}

#[test]
fn leaf_lines_are_found_in_the_box_around_them() {
    let scanner = main_scanner();
    let r = scanner.forward_search("test_main.tex", 9, 1).unwrap();
    assert_eq!((r.page, r.place.line), (1, 8));
    let r = scanner.forward_search("test_main.tex", 7, 1).unwrap();
    assert_eq!((r.page, r.place.line), (1, 8));
}

#[test]
fn lines_up_to_three_away_are_found() {
    let scanner = main_scanner();
    assert_eq!(scanner.forward_search("test_main.tex", 12, 0).unwrap().page, 1);
    assert!(scanner.forward_search("test_main.tex", 13, 0).is_none());
    assert_eq!(scanner.forward_search("test_main.tex", 4, 0).unwrap().page, 1);
    assert!(scanner.forward_search("test_main.tex", 3, 0).is_none());
}

#[test]
fn inverse_search_gives_the_nearest_leaf() {
    let scanner = main_scanner();
    let main = "/home/user/doc/./test_main.tex".to_string();
    assert_eq!(inverse(&scanner, 1, 133.8, 120.0), Some((main.clone(), 7)));
    assert_eq!(inverse(&scanner, 1, 164.0, 120.0), Some((main.clone(), 8)));
    assert_eq!(inverse(&scanner, 1, 185.0, 120.0), Some((main, 9)));
    assert_eq!(
        inverse(&scanner, 2, 100.0, 100.0),
        Some(("/home/user/doc/./input_files/chapter_one.tex".to_string(), 4))
    );
    assert_eq!(inverse(&scanner, 3, 100.0, 100.0), None);
}

#[test]
fn leaves_without_extent_or_source_are_not_found() {
    let s = SyncTexScanner::parse(
        "Input:1:a.tex\nContent:\n{1\nx1,5:100,100\nk7,6:100,100:300\n}1\n",
    )
    .unwrap();
    assert_eq!(s.page_elements().len(), 2);
    assert_eq!(inverse(&s, 1, 0.0, 0.0), None);
    let far = Some(Distance { comparable: true, order: 9 });
    let near = Some(Distance { comparable: true, order: 2 });
    assert!(s.inverse_search(1, &vec![near, far]).is_some());
    assert!(s.inverse_search(1, &vec![far, near]).is_none());
    let odd = Some(Distance { comparable: false, order: 0 });
    assert_eq!(s.inverse_search(1, &vec![far, odd]).unwrap().line, 5);
    assert!(s.inverse_search(1, &vec![None, odd]).is_none());
    assert_eq!(s.inverse_search(1, &vec![odd, near]).unwrap().line, 5);
}

#[test]
fn test_forward_search_nonexistent_file() {
    let scanner = main_scanner();
    assert!(scanner.forward_search("nonexistent.tex", 1, 0).is_none());
}

#[test]
fn test_forward_search_nonexistent_line() {
    let scanner = main_scanner();
    assert!(scanner.forward_search("test_main.tex", 999, 0).is_none());
}

#[test]
fn test_inverse_search_nonexistent_page() {
    let scanner = main_scanner();
    assert!(inverse(&scanner, 99, 100.0, 100.0).is_none());
}

#[test]
fn test_find_synctex_file() {
    let pdf_path = "tests/testdata/synctex/test_main.pdf";
    let result = SyncTexScanner::find_synctex_file(pdf_path, true, false);
    assert!(result.is_some());
    let synctex_path = result.unwrap();
    assert!(synctex_path.ends_with(".synctex.gz"));
    assert_eq!(synctex_path, "tests/testdata/synctex/test_main.synctex.gz");
    assert_eq!(
        SyncTexScanner::find_synctex_file(pdf_path, false, true).unwrap(),
        "tests/testdata/synctex/test_main.synctex"
    );
    assert!(SyncTexScanner::find_synctex_file(pdf_path, false, false).is_none());
    assert!(SyncTexScanner::find_synctex_file("", true, true).is_none());
    assert_eq!(
        sidecar_paths("thesis.pdf").unwrap(),
        ("thesis.synctex.gz".to_string(), "thesis.synctex".to_string())
    );
    assert!(sidecar_paths("/").is_none());
}

#[test]
fn test_gzip_and_plain_parse_identical() {
    let gz_scanner = SyncTexScanner::open("doc/test_main.synctex.gz", &gzipped(MAIN)).unwrap();
    let plain_scanner = SyncTexScanner::open("doc/test_main.synctex", MAIN.as_bytes()).unwrap();
    assert_eq!(gz_scanner.page_count(), plain_scanner.page_count());
    assert_eq!(gz_scanner.inputs().len(), plain_scanner.inputs().len());
    let result_gz = gz_scanner.forward_search("test_main.tex", 8, 1);
    let result_plain = plain_scanner.forward_search("test_main.tex", 8, 1);
    assert!(result_gz.is_some());
    assert!(result_plain.is_some());
    let rg = result_gz.unwrap();
    let rp = result_plain.unwrap();
    assert_eq!(rg.page, rp.page);
    assert_approx_eq(geometry(&rg.place).0, geometry(&rp.place).0, 0.001, "gz vs plain h");
    assert_approx_eq(geometry(&rg.place).1, geometry(&rp.place).1, 0.001, "gz vs plain v");
}

#[test]
fn unreadable_files_are_refused() {
    match SyncTexScanner::open("a.synctex.gz", MAIN.as_bytes()) {
        Err(SyncTexError::Decompress) => {}
        _ => panic!("a plain text is no compressed one"),
    }
    match SyncTexScanner::open("a.synctex", &[0xff, 0xfe]) {
        Err(SyncTexError::Read) => {}
        _ => panic!("no text"),
    }
    assert_eq!(
        SyncTexError::Decompress.message("a.synctex.gz"),
        "Failed to decompress synctex file: a.synctex.gz"
    );
    assert_eq!(SyncTexError::Read.message("a.synctex"), "Failed to read synctex file: a.synctex");
}

#[test]
fn test_parse_empty_content() {
    let content = "SyncTeX Version:1\nContent:\nPostamble:\nCount:0\n";
    let scanner = SyncTexScanner::parse(content).unwrap();
    assert_eq!(scanner.page_count(), 0);
    assert!(scanner.inputs().is_empty());
}

#[test]
fn test_parse_command() {
    let cmd = parse_command("forward 42 1 main.tex");
    assert!(cmd.is_some());
    match cmd.unwrap() {
        SyncTexCommand::Forward { file, line, column } => {
            assert_eq!(file, "main.tex");
            assert_eq!(line, 42);
            assert_eq!(column, 1);
        }
    }

    let cmd = parse_command("forward 8 0 /path/to/chapter1.tex\n");
    assert!(cmd.is_some());
    match cmd.unwrap() {
        SyncTexCommand::Forward { file, line, column } => {
            assert_eq!(file, "/path/to/chapter1.tex");
            assert_eq!(line, 8);
            assert_eq!(column, 0);
        }
    }

    assert!(parse_command("unknown command").is_none());
    assert!(parse_command("forward").is_none());
    assert!(parse_command("forward 1").is_none());
    assert!(parse_command("forward 1 2").is_none());
    assert!(parse_command("").is_none());
}

#[test]
fn sent_commands_are_read_back() {
    for file in ["main.tex", "/a b/c  d.tex", " leading", "\u{e9}.tex"] {
        let sent = send_forward_command(file, 42, 1);
        assert_eq!(sent, format!("forward 42 1 {file}\n"));
        match parse_command(&sent) {
            Some(SyncTexCommand::Forward { file: f, line, column }) => {
                assert_eq!((f.as_str(), line, column), (file, 42, 1));
            }
            None => panic!("{file} is not read back"),
        }
    }
    assert!(parse_command(&send_forward_command("", 1, 2)).is_none());
    assert!(parse_command("forward 4294967296 0 a").is_none());
    assert!(parse_command("forward x 0 a").is_none());
    assert!(parse_command("forward 1 -2 a").is_none());
}

#[test]
fn answers_are_understood() {
    let known = parse_command("forward 1 1 a");
    assert_eq!(answer_line(&known, true), ("ok\n", false));
    assert_eq!(answer_line(&known, false), ("error channel closed\n", true));
    assert_eq!(answer_line(&None, true), ("error unknown command\n", false));
    assert!(matches!(read_reply("ok\n"), ForwardReply::Accepted));
    assert!(matches!(read_reply(" \n"), ForwardReply::Unanswered));
    assert!(matches!(read_reply("error x\n"), ForwardReply::Refused { .. }));
    assert_eq!(reply_error("ok\n"), None);
    assert_eq!(
        reply_error("").unwrap(),
        "SyncTeX listener closed without acknowledging the command"
    );
    assert_eq!(
        reply_error("error unknown command\n").unwrap(),
        "SyncTeX listener error: error unknown command"
    );
}

fn socket(pdf: &str) -> String {
    synctex_socket_path("/tmp", pdf, &normalized_pdf_identity(pdf, &None, &None))
}

#[test]
fn test_synctex_socket_path() {
    let path = socket("/home/user/documents/thesis.pdf");
    assert!(path.contains("bookokrat-stx-thesis-"));
    assert!(path.ends_with(".sock"));
}

#[test]
fn test_synctex_socket_path_distinguishes_same_stem_in_different_dirs() {
    let a = socket("/home/user/a/thesis.pdf");
    let b = socket("/home/user/b/thesis.pdf");
    assert_ne!(a, b);
}

#[test]
fn socket_names_are_short_and_safe() {
    let path = socket("/d/A very long name, with \u{e9} and more.pdf");
    assert!(path.starts_with("/tmp/bookokrat-stx-A-very-long-name-"));
    assert_eq!(path.len(), "/tmp/".len() + 52);
    assert!(socket("/").contains("bookokrat-stx-unknown-"));
    assert_eq!(
        synctex_socket_path("/tmp/", "a.pdf", ""),
        "/tmp/bookokrat-stx-a-cbf29ce484222325.sock"
    );
}

#[test]
fn hash_is_the_same_everywhere() {
    assert_eq!(stable_path_hash(b""), 0xcbf29ce484222325);
    assert_eq!(stable_path_hash(b"a"), 0xaf63dc4c8601ec8c);
    assert_eq!(stable_path_hash(b"foobar"), 0x85944171f73967e8);
}

#[test]
fn identity_is_the_full_path() {
    let cwd = Some("/work".to_string());
    assert_eq!(normalized_pdf_identity("a.pdf", &Some("/real/a.pdf".into()), &cwd), "/real/a.pdf");
    assert_eq!(normalized_pdf_identity("/x/a.pdf", &None, &cwd), "/x/a.pdf");
    assert_eq!(normalized_pdf_identity("a.pdf", &None, &cwd), "/work/a.pdf");
    assert_eq!(normalized_pdf_identity("a.pdf", &None, &None), "a.pdf");
}

#[test]
fn file_names_match_whole_components() {
    let content = "Input:1:/p/data.tex\nContent:\n{1\n(1,5:0,0:0,0,0\nx1,5:0,0\n)\n}1\nPostamble:\n";
    let s = SyncTexScanner::parse(content).unwrap();
    assert!(s.forward_search("a.tex", 5, 0).is_none());
    assert!(s.forward_search("ta.tex", 5, 0).is_none());
    for query in ["data.tex", "p/data.tex", "/p/data.tex", "./p/../p/data.tex"] {
        assert_eq!(s.forward_search(query, 5, 0).map(|r| r.page), Some(1), "{query}");
    }
}

#[test]
fn detours_are_removed() {
    assert_eq!(normalize_path_str("/home/user/project/./files/intro.tex"), "/home/user/project/files/intro.tex");
    assert_eq!(normalize_path_str("a/../b/./c"), "b/c");
    assert_eq!(normalize_path_str("../x"), "x");
    assert_eq!(normalize_path_str("/a//b/"), "/a/b");
    assert_eq!(normalize_path_str("/.."), "/");
    assert_eq!(normalize_path_str("/../a.tex"), "/a.tex");
    assert_eq!(normalize_path_str("/a/../../b"), "/b");
    assert_eq!(normalize_path_str("a/.."), "");
    for path in ["/../a/./b//c/..", "../x/..", "/", ".", "a/../../b/"] {
        let once = normalize_path_str(path);
        assert_eq!(normalize_path_str(&once), once, "{path}");
    }
    assert_eq!(normalize_path_str(""), "");
}

const MULTI: &str = "SyncTeX Version:1
Input:1:/w/./test_multifile.tex
Content:
{1
Input:2:/w/./input_files/chapter_one.tex
(2,4:100,100:200,10,2
x2,4:100,100
)
}1
{2
}2
Input:3:/w/./input_files/chapter_two.tex
{3
(3,4:100,100:200,10,2
)
}3
Input:4:/w/./input_files/chapter_three.tex
{4
(4,4:100,100:200,10,2
)
}4
{5
}5
Postamble:
";

#[test]
fn test_multifile_parse() {
    let scanner = SyncTexScanner::parse(MULTI).unwrap();
    assert_eq!(scanner.page_count(), 5);
    let has_main = scanner.inputs().values().any(|p| p.ends_with("test_multifile.tex"));
    let has_ch1 = scanner.inputs().values().any(|p| p.ends_with("input_files/chapter_one.tex"));
    let has_ch2 = scanner.inputs().values().any(|p| p.ends_with("input_files/chapter_two.tex"));
    let has_ch3 = scanner.inputs().values().any(|p| p.ends_with("input_files/chapter_three.tex"));
    assert!(has_main, "Missing main file input");
    assert!(has_ch1, "Missing chapter_one.tex input");
    assert!(has_ch2, "Missing chapter_two.tex input");
    assert!(has_ch3, "Missing chapter_three.tex input");
}

fn canonical_search(name: &str, page: usize) {
    let scanner = SyncTexScanner::parse(MULTI).unwrap();
    let stored_path = scanner.inputs().values().find(|p| p.ends_with(name)).expect("not found in inputs");
    let canonical = stored_path.replace("/./", "/");
    assert_ne!(&canonical, stored_path, "Test setup: paths should differ by ./ normalization");
    let result = scanner.forward_search(&canonical, 4, 1);
    assert!(result.is_some());
    assert_eq!(result.unwrap().page, page);
}

#[test]
fn test_multifile_forward_absolute_path() {
    canonical_search("input_files/chapter_one.tex", 1);
}

#[test]
fn test_multifile_forward_absolute_path_chapter_two() {
    canonical_search("input_files/chapter_two.tex", 3);
}

#[test]
fn test_multifile_forward_absolute_path_chapter_three() {
    canonical_search("input_files/chapter_three.tex", 4);
}

#[test]
fn sources_are_found_by_file_name() {
    let scanner = SyncTexScanner::parse(MULTI).unwrap();
    let r = scanner.forward_search("/elsewhere/chapter_two.tex", 4, 1).unwrap();
    assert_eq!(r.page, 3);
}

#[test]
fn records_are_read() {
    let b = parse_box(&chars("1,20:4736286,47108178:29260808,42372176,0")).unwrap();
    assert_eq!((b.tag, b.line), (1, 20));
    assert_eq!((b.h.as_str(), b.v.as_str()), ("4736286", "47108178"));
    assert_eq!((b.width.as_str(), b.height.as_str(), b.depth.as_str()), ("29260808", "42372176", "0"));
    assert!(parse_box(&chars("1,20:1,2:3,4")).is_none());
    assert!(parse_box(&chars("1,20:1,2")).is_none());
    assert!(parse_box(&chars("1,x:1,2:3,4,5")).is_none());
    assert!(parse_box(&chars("1,2:1,y:3,4,5")).is_none());
    let e = parse_element(&chars("2,7:-5,6:8:9")).unwrap();
    assert_eq!((e.tag, e.line, e.h.as_str(), e.v.as_str()), (2, 7, "-5", "6"));
    assert_eq!(e.width.as_deref(), Some("8"));
    assert!(parse_element(&chars("2,7:5,6:w")).unwrap().width.is_none());
    assert!(parse_element(&chars("2,7:5,6")).unwrap().width.is_none());
    assert!(parse_element(&chars("2,7")).is_none());
    assert!(parse_element(&chars("2,7:56")).is_none());
}

#[test]
fn numerals_are_those_that_can_be_parsed() {
    for s in [
        "0", "12", "-3", "+4", "1.5", ".5", "5.", "1e3", "1E-3", "2.5e+10", "inf", "-Infinity",
        "NaN", "", ".", "e5", "1e", "1e+", "--1", "+", "1 ", " 1", "0x1", "1_0", "infin", "1.2.3",
        "-.5e0", "5.e1", ".e1", "nan1", "+nan",
    ] {
        assert_eq!(numeral(&chars(s)), s.parse::<f64>().is_ok(), "{s:?}");
    }
}
