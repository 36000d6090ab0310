use managed_lhapdf::config::Config;
use managed_lhapdf::fetch::{Acquisition, Download, FetchEvent, FetchStep};
use managed_lhapdf::manager::{
    is_missing_set, missing_set_message_for, pdf_with_setname_and_member, pdfset_new, Call,
    LhapdfData, Operation, Phase, Reply, Step,
};
use managed_lhapdf::{lookup_pdf, verbosity, Error};

/// A stand-in for LHAPDF, its index, the write directory and the repositories.
struct World {
    /// The index as LHAPDF has read it.
    index: Vec<(i32, String, i32)>,
    /// The index that a refresh downloads.
    remote_index: Vec<(i32, String, i32)>,
    /// The sets in the write directory.
    installed: Vec<String>,
    /// Each archive URL that a repository serves.
    archives: Vec<String>,
    verbosity: i32,
    refreshes: usize,
    fetches: usize,
    requests: Vec<String>,
}

impl World {
    fn new() -> World {
        World {
            index: vec![],
            remote_index: vec![],
            installed: vec![],
            archives: vec![],
            verbosity: 1,
            refreshes: 0,
            fetches: 0,
            requests: vec![],
        }
    }

    fn call(&mut self, call: &Call) -> Reply {
        match call {
            Call::LookupPdf(id) => match self.index.iter().find(|e| e.0 == *id) {
                Some((_, name, member)) => Reply::Looked(name.clone(), *member),
                None => Reply::Looked(String::new(), -1),
            },
            Call::PdfWithSetnameAndMember(name, _) | Call::PdfsetNew(name) => {
                if self.installed.contains(name) {
                    Reply::Returned
                } else {
                    Reply::Raised(format!("Info file not found for PDF set '{name}'"))
                }
            }
            Call::SetVerbosity(v) => {
                self.verbosity = *v;
                Reply::Returned
            }
            Call::Verbosity => Reply::Returned,
        }
    }

    fn fetch(&mut self, config: &Config, name: &str) -> Reply {
        self.fetches += 1;
        let present = self.installed.iter().any(|s| s == name);
        let (mut download, mut step) = Download::start(config, name, present);
        loop {
            match step {
                FetchStep::Request(url) => {
                    self.requests.push(url.clone());
                    let event = if self.archives.contains(&url) {
                        self.installed.push(name.to_string());
                        FetchEvent::Unpacked
                    } else {
                        FetchEvent::NotFound
                    };
                    step = download.on_event(config, event);
                }
                FetchStep::Done(Ok(_)) => return Reply::Acquired,
                FetchStep::Done(Err(e)) => return Reply::NotAcquired(e),
            }
        }
    }

    /// Drives `op` to its end and returns the last step.
    fn run(&mut self, data: &LhapdfData, mut op: Operation) -> Step {
        let mut step = Step::Invoke;
        loop {
            let reply = match &step {
                Step::Invoke => self.call(&op.call),
                Step::Fetch(name) => self.fetch(&data.config, name),
                Step::RefreshIndex => {
                    self.refreshes += 1;
                    self.index = self.remote_index.clone();
                    Reply::Acquired
                }
                _ => return step,
            };
            step = data.advance(&mut op, reply);
        }
    }
}

fn config(write: &str, urls: &[&str]) -> Config {
    Config {
        lhapdf_data_path_read: vec![],
        lhapdf_data_path_write: write.to_string(),
        pdfsets_index_url: "https://example.org/pdfsets.index".to_string(),
        pdfset_urls: urls.iter().map(|u| u.to_string()).collect(),
    }
}

fn entry(id: i32, name: &str, member: i32) -> (i32, String, i32) {
    (id, name.to_string(), member)
}

fn resolved(step: Step) -> Option<(String, i32)> {
    match step {
        Step::Resolved(answer) => answer,
        other => panic!("not a lookup answer: {other:?}"),
    }
}

#[test]
fn set_verbosity() {
    let data = LhapdfData::new(config("/data", &["https://example.org/"]));
    let mut world = World::new();
    assert_eq!(world.run(&data, managed_lhapdf::set_verbosity(0)), Step::Return);
    assert_eq!(world.run(&data, verbosity()), Step::Return);
    assert_eq!(world.verbosity, 0);
}

#[test]
fn check_lookup_pdf() {
    let data = LhapdfData::new(config("/data", &["https://example.org/"]));
    let mut world = World::new();
    world.index = vec![
        entry(324900, "NNPDF31_nlo_as_0118_luxqed", 0),
        entry(324901, "NNPDF31_nlo_as_0118_luxqed", 1),
    ];
    world.remote_index = world.index.clone();
    assert!(matches!(resolved(world.run(&data, lookup_pdf(324900))), Some((name, member))
        if (name == "NNPDF31_nlo_as_0118_luxqed") && (member == 0)));
    assert!(matches!(resolved(world.run(&data, lookup_pdf(324901))), Some((name, member))
        if (name == "NNPDF31_nlo_as_0118_luxqed") && (member == 1)));
    assert!(matches!(resolved(world.run(&data, lookup_pdf(-1))), None));
}

#[test]
fn lookup_twice_gives_same_answer_without_refresh() {
    let data = LhapdfData::new(config("/data", &["https://example.org/"]));
    let mut world = World::new();
    world.index = vec![entry(13100, "CT14nnlo", 0)];
    let first = resolved(world.run(&data, lookup_pdf(13100)));
    let second = resolved(world.run(&data, lookup_pdf(13100)));
    assert_eq!(first, Some(("CT14nnlo".to_string(), 0)));
    assert_eq!(first, second);
    assert_eq!(world.refreshes, 0);
}

#[test]
fn lookup_miss_refreshes_once_then_answers_none() {
    let data = LhapdfData::new(config("/data", &["https://example.org/"]));
    let mut world = World::new();
    world.remote_index = vec![entry(1, "Other", 0)];
    assert_eq!(resolved(world.run(&data, lookup_pdf(42))), None);
    assert_eq!(world.refreshes, 1);
}

#[test]
fn lookup_miss_found_after_refresh() {
    let data = LhapdfData::new(config("/data", &["https://example.org/"]));
    let mut world = World::new();
    world.remote_index = vec![entry(42, "New", 3)];
    assert_eq!(resolved(world.run(&data, lookup_pdf(42))), Some(("New".to_string(), 3)));
    assert_eq!(world.refreshes, 1);
}

#[test]
fn lookup_steps_one_by_one() {
    let data = LhapdfData::new(config("/data", &[]));
    let mut op = lookup_pdf(7);
    assert_eq!(op.phase, Phase::Calling);
    assert_eq!(data.advance(&mut op, Reply::Looked(String::new(), -1)), Step::RefreshIndex);
    assert_eq!(data.advance(&mut op, Reply::Acquired), Step::Invoke);
    assert_eq!(data.advance(&mut op, Reply::Looked(String::new(), -1)), Step::Resolved(None));
    assert!(op.is_done());
    assert_eq!(data.advance(&mut op, Reply::Acquired), Step::Abort(Error::OutOfOrder));
}

#[test]
fn empty_name_with_member_is_an_entry() {
    let data = LhapdfData::new(config("/data", &[]));
    let mut op = lookup_pdf(7);
    assert_eq!(data.advance(&mut op, Reply::Looked(String::new(), 0)), Step::Resolved(Some((String::new(), 0))));
    assert_eq!(data.pdf_name_and_member_via_lhaid(String::new(), -1), None);
    assert_eq!(
        managed_lhapdf::unmanaged::pdf_name_and_member_via_lhaid("A".to_string(), -1),
        Some(("A".to_string(), -1))
    );
}

#[test]
fn refresh_failure_aborts_lookup() {
    let data = LhapdfData::new(config("/data", &[]));
    let mut op = lookup_pdf(7);
    assert_eq!(data.advance(&mut op, Reply::Looked(String::new(), -1)), Step::RefreshIndex);
    let failure = Error::Other("connection refused".to_string());
    assert_eq!(data.advance(&mut op, Reply::NotAcquired(failure.clone())), Step::Abort(failure));
}

#[test]
fn lookup_miss_in_read_only_mode() {
    let data = LhapdfData::new(config("", &["https://example.org/"]));
    let mut world = World::new();
    assert_eq!(world.run(&data, lookup_pdf(42)), Step::Abort(Error::ReadOnly));
    assert_eq!(world.refreshes, 0);
}

#[test]
fn end_to_end_resolve_then_fetch_once() {
    let data = LhapdfData::new(config("/data", &["https://example.org/sets/"]));
    let mut world = World::new();
    world.remote_index = vec![entry(324900, "ExampleSet", 0)];
    world.archives = vec!["https://example.org/sets/ExampleSet.tar.gz".to_string()];
    let (name, member) = resolved(world.run(&data, lookup_pdf(324900))).unwrap();
    assert_eq!((name.as_str(), member), ("ExampleSet", 0));
    assert_eq!(world.run(&data, pdf_with_setname_and_member(&name, member)), Step::Return);
    assert_eq!(world.fetches, 1);
    assert_eq!(world.requests, vec!["https://example.org/sets/ExampleSet.tar.gz".to_string()]);
    assert!(world.installed.contains(&"ExampleSet".to_string()));
}

#[test]
fn present_set_is_not_fetched() {
    let data = LhapdfData::new(config("/data", &["https://example.org/"]));
    let mut world = World::new();
    world.installed = vec!["CT10".to_string()];
    assert_eq!(world.run(&data, pdfset_new("CT10")), Step::Return);
    assert_eq!(world.fetches, 0);
}

#[test]
fn missing_set_in_read_only_mode() {
    let data = LhapdfData::new(config("", &["https://example.org/"]));
    let mut world = World::new();
    world.archives = vec!["https://example.org/CT10.tar.gz".to_string()];
    assert_eq!(world.run(&data, pdf_with_setname_and_member("CT10", 0)), Step::Abort(Error::ReadOnly));
    assert_eq!(world.fetches, 0);
    assert!(world.requests.is_empty());
}

#[test]
fn set_nowhere_to_be_found() {
    let data = LhapdfData::new(config("/data", &["https://a.example.org/", "https://b.example.org/"]));
    let mut world = World::new();
    assert_eq!(
        world.run(&data, pdfset_new("IDontExist")),
        Step::Abort(Error::SetNotFound("IDontExist".to_string()))
    );
    assert_eq!(world.fetches, 1);
    assert_eq!(world.requests.len(), 2);
}

#[test]
fn other_failures_propagate_unchanged() {
    let data = LhapdfData::new(config("/data", &["https://example.org/"]));
    let mut op = pdf_with_setname_and_member("NNPDF31_nlo_as_0118_luxqed", 10000);
    let message = "PDF NNPDF31_nlo_as_0118_luxqed/10000 is out of the member range of set NNPDF31_nlo_as_0118_luxqed";
    assert_eq!(data.advance(&mut op, Reply::Raised(message.to_string())), Step::Return);
    assert!(op.is_done());
}

#[test]
fn message_for_another_set_is_not_missing_data() {
    let data = LhapdfData::new(config("/data", &["https://example.org/"]));
    let mut op = pdfset_new("foobar");
    let step = data.advance(&mut op, Reply::Raised("Info file not found for PDF set 'other'".to_string()));
    assert_eq!(step, Step::Return);
}

#[test]
fn set_name_with_separator_is_not_fetched() {
    let data = LhapdfData::new(config("/data", &["https://example.org/"]));
    let mut op = pdfset_new("a/b");
    let step = data.advance(&mut op, Reply::Raised("Info file not found for PDF set 'a/b'".to_string()));
    assert_eq!(step, Step::Return);
}

#[test]
fn retry_result_is_final() {
    let data = LhapdfData::new(config("/data", &["https://example.org/"]));
    let mut op = pdfset_new("foobar");
    let missing = missing_set_message_for("foobar");
    assert_eq!(data.advance(&mut op, Reply::Raised(missing.clone())), Step::Fetch("foobar".to_string()));
    assert_eq!(data.advance(&mut op, Reply::Acquired), Step::Invoke);
    assert_eq!(op.phase, Phase::Retrying);
    assert_eq!(data.advance(&mut op, Reply::Raised(missing)), Step::Return);
    assert!(op.is_done());
}

#[test]
fn missing_set_message_text() {
    assert_eq!(missing_set_message_for("foobar"), "Info file not found for PDF set 'foobar'");
    assert!(is_missing_set("Info file not found for PDF set 'IDontExist'", "IDontExist"));
    assert!(!is_missing_set("Info file not found for PDF set 'IDontExist'", "IDont"));
}

#[test]
fn fetch_outcome_kinds() {
    let cfg = config("/data", &["https://example.org/"]);
    let (_, step) = Download::start(&cfg, "CT10", true);
    assert_eq!(step, FetchStep::Done(Ok(Acquisition::AlreadyPresent)));
    let (mut download, step) = Download::start(&cfg, "CT10", false);
    assert_eq!(step, FetchStep::Request("https://example.org/CT10.tar.gz".to_string()));
    assert_eq!(download.on_event(&cfg, FetchEvent::Unpacked), FetchStep::Done(Ok(Acquisition::Installed)));
    assert_eq!(Operation::new(Call::Verbosity).phase, Phase::Calling);
}
