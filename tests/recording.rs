use std::collections::HashMap;

use pai_strace::args::{sanity_check, Error, Filter, Format, Warning};
use pai_strace::state::{Dest, Output, State, Target};
use pai_strace::text::decimal_of;
use pai_strace::writers::{RawSyscall, Record, Sink, WriteJson, WriteRaw};
use struson::reader::{JsonReader, JsonStreamReader};

/// In-memory stand-in for the destinations: contents per sink, and every
/// destination created, in order.
#[derive(Default)]
struct Files {
    contents: HashMap<Target, Vec<u8>>,
    paths: HashMap<Target, Option<String>>,
    created: Vec<Option<String>>,
}

impl Files {
    fn apply(&mut self, outs: Vec<Output>) {
        for o in outs {
            if let Some(d) = o.open {
                let p = match d {
                    Dest::Stdout => None,
                    Dest::File(p) => Some(String::from_utf8(p).unwrap()),
                };
                self.created.push(p.clone());
                self.paths.insert(o.target, p);
                self.contents.insert(o.target, Vec::new());
            }
            self.contents.get_mut(&o.target).expect("write before open").extend(o.bytes);
        }
    }

    fn text(&self, tid: Option<isize>, format: Format) -> String {
        String::from_utf8(self.contents[&Target { tid, format }].clone()).unwrap()
    }

    fn path(&self, tid: Option<isize>, format: Format) -> Option<String> {
        self.paths[&Target { tid, format }].clone()
    }
}

fn rec(line: &str, json: &str) -> Record {
    Record { line: line.as_bytes().to_vec(), json: json.as_bytes().to_vec() }
}

fn json_elements(doc: &str) -> usize {
    let mut r = JsonStreamReader::new(doc.as_bytes());
    r.begin_array().unwrap();
    let mut n = 0;
    while r.has_next().unwrap() {
        r.skip_value().unwrap();
        n += 1;
    }
    r.end_array().unwrap();
    r.consume_trailing_whitespace().unwrap();
    n
}

fn start(formats: &[Format], output: Option<&str>, per_task: bool) -> (State, Files) {
    let fs = formats.to_vec();
    let (st, outs) =
        State::new(&fs, output.map(|p| p.as_bytes().to_vec()), false, per_task).unwrap();
    let mut files = Files::default();
    files.apply(outs);
    (st, files)
}

#[test]
fn json_global_two_records_in_order() {
    let (mut st, mut files) = start(&[Format::Json], Some("trace"), false);
    files.apply(st.write_syscall(7, &rec("7: openat()", "{\"sys\":\"openat\",\"tid\":7}")));
    files.apply(st.write_stop(7, &rec("7: stop", "{\"stop\":\"Exit\",\"tid\":7}")));
    files.apply(st.finish());
    assert_eq!(files.path(None, Format::Json), Some("trace.json".to_string()));
    assert_eq!(files.created, vec![Some("trace.json".to_string())]);
    let doc = files.text(None, Format::Json);
    assert_eq!(doc, "[{\"sys\":\"openat\",\"tid\":7},{\"stop\":\"Exit\",\"tid\":7}]");
    assert_eq!(json_elements(&doc), 2);
}

#[test]
fn per_task_raw_and_json_files() {
    let (mut st, mut files) = start(&[Format::Raw, Format::Json], Some("trace"), true);
    assert!(files.created.is_empty());
    files.apply(st.write_event(3, &rec("event 3", "{\"event\":3}")));
    files.apply(st.finish());
    assert_eq!(
        files.created,
        vec![Some("trace_3.txt".to_string()), Some("trace_3.json".to_string())]
    );
    assert!(!files.created.contains(&Some("trace.txt".to_string())));
    assert!(!files.created.contains(&Some("trace.json".to_string())));
    assert_eq!(files.text(Some(3), Format::Raw), "event 3\n");
    let doc = files.text(Some(3), Format::Json);
    assert_eq!(doc, "[{\"event\":3}]");
    assert_eq!(json_elements(&doc), 1);
}

#[test]
fn per_task_without_output_is_configuration_error() {
    let r = State::new(&vec![Format::Raw], None, false, true);
    assert!(matches!(r, Err(Error::Configuration)));
}

#[test]
fn global_output_directory_is_destination_error() {
    let r = State::new(&vec![Format::Json], Some(b"out".to_vec()), true, false);
    assert!(matches!(r, Err(Error::Destination)));
}

#[test]
fn json_element_count_matches_records() {
    for n in 0..5usize {
        let (mut st, mut files) = start(&[Format::Json, Format::Raw], Some("t"), false);
        for i in 0..n {
            let j = format!("{{\"i\":{i},\"a\":[1,2]}}");
            files.apply(st.write_event(i as isize, &rec("x", &j)));
        }
        files.apply(st.finish());
        let doc = files.text(None, Format::Json);
        assert_eq!(json_elements(&doc), n);
    }
}

#[test]
fn raw_line_count_matches_records() {
    let (mut st, mut files) = start(&[Format::Raw], None, false);
    assert_eq!(files.path(None, Format::Raw), None);
    let lines = ["a", "bb", "", "ccc"];
    for (i, l) in lines.iter().enumerate() {
        files.apply(st.write_syscall(i as isize, &rec(l, "0")));
    }
    files.apply(st.finish());
    let text = files.text(None, Format::Raw);
    assert_eq!(text, "a\nbb\n\nccc\n");
    assert_eq!(text.matches('\n').count(), lines.len());
}

#[test]
fn global_mode_sinks_ignore_task_ids() {
    let (mut st, mut files) = start(&[Format::Raw, Format::Json], Some("g"), false);
    assert_eq!(files.contents.len(), 2);
    for (i, tid) in [1, 2, 3, 1, 2].iter().enumerate() {
        let outs = st.write_event(*tid, &rec(&format!("r{i}"), &format!("{i}")));
        assert_eq!(outs.len(), 2);
        assert!(outs.iter().all(|o| o.open.is_none() && o.target.tid.is_none()));
        files.apply(outs);
    }
    files.apply(st.finish());
    assert_eq!(files.contents.len(), 2);
    assert_eq!(files.text(None, Format::Raw), "r0\nr1\nr2\nr3\nr4\n");
    assert_eq!(files.text(None, Format::Json), "[0,1,2,3,4]");
    assert_eq!(files.path(None, Format::Raw), Some("g.txt".to_string()));
    assert_eq!(files.path(None, Format::Json), Some("g.json".to_string()));
}

#[test]
fn per_task_sinks_created_once_per_task() {
    let (mut st, mut files) = start(&[Format::Raw, Format::Json], Some("p"), true);
    files.apply(st.write_syscall(1, &rec("a1", "1")));
    files.apply(st.write_syscall(2, &rec("b1", "2")));
    let again = st.write_syscall(1, &rec("a2", "3"));
    assert!(again.iter().all(|o| o.open.is_none()));
    files.apply(again);
    files.apply(st.finish());
    assert_eq!(files.created.len(), 4);
    assert_eq!(files.text(Some(1), Format::Raw), "a1\na2\n");
    assert_eq!(files.text(Some(2), Format::Raw), "b1\n");
    assert_eq!(files.text(Some(1), Format::Json), "[1,3]");
    assert_eq!(files.text(Some(2), Format::Json), "[2]");
    assert_eq!(files.path(Some(2), Format::Json), Some("p_2.json".to_string()));
}

#[test]
fn finishing_twice_is_harmless() {
    let (mut st, mut files) = start(&[Format::Json], Some("f"), false);
    files.apply(st.write_event(1, &rec("x", "1")));
    let first = st.finish();
    assert_eq!(first.len(), 1);
    files.apply(first);
    let second = st.finish();
    assert!(second.is_empty());
    assert_eq!(files.text(None, Format::Json), "[1]");
}

#[test]
fn empty_json_sink_is_empty_array() {
    let (mut st, mut files) = start(&[Format::Json], Some("e"), false);
    files.apply(st.finish());
    assert_eq!(files.text(None, Format::Json), "[]");
    assert_eq!(json_elements("[]"), 0);
}

#[test]
fn duplicate_formats_give_one_sink_each() {
    let (mut st, mut files) = start(&[Format::Raw, Format::Raw, Format::Json], None, false);
    assert_eq!(files.created, vec![None, None]);
    files.apply(st.write_event(1, &rec("x", "1")));
    assert_eq!(files.text(None, Format::Raw), "x\n");
}

#[test]
fn output_with_extension_is_kept() {
    let (_st, files) = start(&[Format::Json, Format::Raw], Some("out/run.json"), false);
    assert_eq!(files.path(None, Format::Json), Some("out/run.json".to_string()));
    assert_eq!(files.path(None, Format::Raw), Some("out/run.json.txt".to_string()));
}

#[test]
fn negative_task_id_in_file_name() {
    let (mut st, mut files) = start(&[Format::Raw], Some("n"), true);
    files.apply(st.write_event(-1, &rec("e", "0")));
    assert_eq!(files.created, vec![Some("n_-1.txt".to_string())]);
}

#[test]
fn raw_syscall_text_and_json() {
    let p = RawSyscall::new(42, true);
    assert_eq!(String::from_utf8(p.line()).unwrap(), "42: sycall(entry)");
    assert_eq!(String::from_utf8(p.json()).unwrap(), "{\"tid\":42,\"entry\":true}");
    let q = RawSyscall::new(-5, false);
    assert_eq!(String::from_utf8(q.line()).unwrap(), "-5: sycall(exit)");
    assert_eq!(String::from_utf8(q.json()).unwrap(), "{\"tid\":-5,\"entry\":false}");
    let (mut st, mut files) = start(&[Format::Raw, Format::Json], Some("r"), false);
    files.apply(st.write_raw_sysno(9, &RawSyscall::new(9, false)));
    files.apply(st.finish());
    assert_eq!(files.text(None, Format::Raw), "9: sycall(exit)\n");
    assert_eq!(files.text(None, Format::Json), "[{\"tid\":9,\"entry\":false}]");
}

#[test]
fn decimal_rendering() {
    assert_eq!(decimal_of(0), b"0".to_vec());
    assert_eq!(decimal_of(1234), b"1234".to_vec());
    assert_eq!(decimal_of(isize::MAX), b"9223372036854775807".to_vec());
    assert_eq!(decimal_of(isize::MIN), b"-9223372036854775808".to_vec());
}

#[test]
fn sink_framing_by_hand() {
    let mut j = Sink::Json(WriteJson::new());
    let mut out = j.init();
    out.extend(j.write(&rec("a", "true")));
    out.extend(j.write(&rec("b", "null")));
    out.extend(j.finish());
    assert_eq!(out, b"[true,null]".to_vec());
    let mut r = WriteRaw::new();
    let mut out = r.init();
    out.extend(r.write(&rec("a", "true")));
    out.extend(r.finish());
    assert_eq!(out, b"a\n".to_vec());
}

#[test]
fn format_and_filter_names() {
    assert_eq!(Format::from_str("JSON"), Ok(Format::Json));
    assert_eq!(Format::from_str("Raw"), Ok(Format::Raw));
    assert_eq!(Format::from_str("xml"), Err(Error::NotFound));
    assert_eq!(Format::from_lowered("json"), Ok(Format::Json));
    assert_eq!(Format::from_lowered("JSON"), Err(Error::NotFound));
    assert_eq!(Filter::from_str("SUCCESS"), Ok(Filter::Success));
    assert_eq!(Filter::from_str("None"), Ok(Filter::All));
    assert_eq!(Filter::from_str("fail"), Ok(Filter::Fail));
    assert_eq!(Filter::from_str("both"), Err(Error::NotFound));
    assert_eq!(Format::Json.name(), "Json");
    assert_eq!(Filter::All.name(), "None");
    assert_eq!(Format::Raw.extension(), b"txt".to_vec());
}

#[test]
fn filter_admits_outcomes() {
    assert!(Filter::All.admits(false, true));
    assert!(Filter::Success.admits(true, false));
    assert!(!Filter::Success.admits(false, true));
    assert!(Filter::Fail.admits(false, true));
    assert!(!Filter::Fail.admits(true, false));
}

#[test]
fn sanity_check_warnings() {
    let s = sanity_check(None, 0, false, Filter::All, false, false);
    assert_eq!(s.warnings, vec![Warning::NoTarget]);
    assert!(s.fatal);
    let s = sanity_check(Some("ls"), 1, false, Filter::All, false, true);
    assert!(s.warnings.is_empty());
    assert!(!s.fatal);
    let s = sanity_check(Some("-v"), 2, true, Filter::Fail, false, false);
    assert_eq!(
        s.warnings,
        vec![Warning::DashTarget, Warning::ManyTargets, Warning::FilterWithoutEnrich]
    );
    assert!(!s.fatal);
    let s = sanity_check(Some("ls"), 1, false, Filter::Success, false, true);
    assert_eq!(s.warnings, vec![Warning::FilterWithoutEnrich]);
    assert!(s.fatal);
}
