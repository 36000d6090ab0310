//! Fetching a set: the repositories are tried in order until one has the set's archive.
//!
//! The caller holds the set's lock, downloads each archive that a [`FetchStep::Request`] names
//! and unpacks it into the write directory, and reports each outcome as a [`FetchEvent`].
use crate::config::Config;
use crate::error::Error;
use vstd::prelude::*;

verus! {

/// The URL that `url::Url::join` makes of the reference `input` against the base URL `base`
/// (parsed with `url::Url::parse`), as text; `None` where parsing or joining fails.
pub uninterp spec fn joined_url(base: Seq<char>, input: Seq<char>) -> Option<Seq<char>>;

/// Relies on `url::Url::parse` to read `base` and on `url::Url::join` to resolve `input`
/// against it; the result is the joined URL's text, the error the parser's message.
#[verifier::external_body]
fn join_url(base: &str, input: &str) -> (r: core::result::Result<String, String>)
    ensures
        r is Ok <==> joined_url(base@, input@) is Some,
        r matches Ok(u) ==> joined_url(base@, input@) == Some(u@),
{
    let joined = match url::Url::parse(base) {
        Ok(b) => b.join(input),
        Err(e) => Err(e),
    };
    match joined {
        Ok(u) => Ok(String::from(u)),
        Err(e) => Err(e.to_string()),
    }
}

/// The file name of the archive of the set `name`.
pub open spec fn archive_file(name: Seq<char>) -> Seq<char> {
    name + ".tar.gz"@
}

/// The file name of the archive of the set `name`.
pub fn archive_name(name: &str) -> (r: String)
    ensures
        r@ == archive_file(name@),
{
    let mut file = String::from_str(name);
    file.append(".tar.gz");
    file
}

/// How a fetch that succeeded got its set.
#[derive(Debug, Clone, Copy, PartialEq, Eq)]
pub enum Acquisition {
    /// An archive was downloaded and unpacked.
    Installed,
    /// The set was already in the write directory when the lock was obtained.
    AlreadyPresent,
}

/// What the caller reports about the archive that was last requested.
#[derive(Debug, PartialEq, Eq)]
pub enum FetchEvent {
    /// The repository does not have it.
    NotFound,
    /// It was downloaded and unpacked into the write directory.
    Unpacked,
    /// The transfer or the unpacking failed.
    Failed(Error),
}

/// What the caller does next.
#[derive(Debug, PartialEq, Eq)]
pub enum FetchStep {
    /// Download the archive at this URL and unpack it.
    Request(String),
    /// The fetch is over.
    Done(core::result::Result<Acquisition, Error>),
}

/// A fetch of one set in progress.
#[derive(Debug, PartialEq, Eq)]
pub struct Download {
    /// The set.
    pub name: String,
    /// How many repository URLs have been requested.
    pub tried: usize,
    /// Whether the fetch is over.
    pub finished: bool,
}

/// The download and the step after `k` repository URLs of `urls` have answered "not found":
/// the archive at the next URL is requested, or the fetch ends.
pub open spec fn after_tried(
    urls: Seq<String>,
    name: String,
    k: int,
    after: Download,
    step: FetchStep,
) -> bool {
    if k >= urls.len() {
        &&& after == Download { name, tried: k as usize, finished: true }
        &&& step == FetchStep::Done(Err(Error::SetNotFound(name)))
    } else {
        match joined_url(urls[k]@, archive_file(name@)) {
            Some(u) => {
                &&& after == Download { name, tried: (k + 1) as usize, finished: false }
                &&& step matches FetchStep::Request(r) && r@ == u
            },
            None => {
                &&& after == Download { name, tried: k as usize, finished: true }
                &&& step matches FetchStep::Done(Err(Error::InvalidUrl(_)))
            },
        }
    }
}

impl Download {
    /// Starts the fetch of the set `name`, once its lock is held; `present` tells whether the
    /// set's directory already exists in the write directory.
    pub fn start(config: &Config, name: &str, present: bool) -> (r: (Download, FetchStep))
        ensures
            !config.writable() ==> r == (Download { name: r.0.name, tried: 0, finished: true },
                FetchStep::Done(Err(Error::ReadOnly))),
            config.writable() && present ==> r == (Download {
                name: r.0.name,
                tried: 0,
                finished: true,
            }, FetchStep::Done(Ok(Acquisition::AlreadyPresent))),
            config.writable() && !present ==> after_tried(
                config.pdfset_urls@,
                r.0.name,
                0,
                r.0,
                r.1,
            ),
            r.0.name@ == name@,
    {
        let mut download = Download { name: String::from_str(name), tried: 0, finished: false };
        if config.lhapdf_data_path_write().is_none() {
            download.finished = true;
            (download, FetchStep::Done(Err(Error::ReadOnly)))
        } else if present {
            download.finished = true;
            (download, FetchStep::Done(Ok(Acquisition::AlreadyPresent)))
        } else {
            let step = download.request_next(config);
            (download, step)
        }
    }

    /// Requests the archive at the next repository URL, or ends the fetch where none is left.
    fn request_next(&mut self, config: &Config) -> (step: FetchStep)
        requires
            !old(self).finished,
            old(self).tried <= config.pdfset_urls@.len(),
        ensures
            after_tried(config.pdfset_urls@, old(self).name, old(self).tried as int, *final(self), step),
    {
        if self.tried >= config.pdfset_urls.len() {
            self.finished = true;
            FetchStep::Done(Err(Error::SetNotFound(self.name.clone())))
        } else {
            let archive = archive_name(self.name.as_str());
            let joined = join_url(config.pdfset_urls[self.tried].as_str(), archive.as_str());
            self.take_url(joined)
        }
    }

    /// Takes the joined URL of the next repository (or the parser's message where the URLs
    /// could not be joined): requests the archive there, or ends the fetch.
    pub fn take_url(&mut self, joined: core::result::Result<String, String>) -> (step: FetchStep)
        requires
            old(self).tried < usize::MAX,
        ensures
            final(self).name == old(self).name,
            joined matches Ok(u) ==> *final(self) == (Download {
                name: old(self).name,
                tried: (old(self).tried + 1) as usize,
                finished: old(self).finished,
            }) && step == FetchStep::Request(u),
            joined matches Err(m) ==> *final(self) == (Download {
                name: old(self).name,
                tried: old(self).tried,
                finished: true,
            }) && step == FetchStep::Done(Err(Error::InvalidUrl(m))),
    {
        match joined {
            Ok(u) => {
                self.tried = self.tried + 1;
                FetchStep::Request(u)
            },
            Err(m) => {
                self.finished = true;
                FetchStep::Done(Err(Error::InvalidUrl(m)))
            },
        }
    }

    /// Takes the outcome of the archive that was last requested and says what comes next: a
    /// "not found" moves on to the next repository, an unpacked archive ends the fetch, and
    /// any other failure ends it at once, with no other repository tried.
    pub fn on_event(&mut self, config: &Config, event: FetchEvent) -> (step: FetchStep)
        requires
            old(self).tried <= config.pdfset_urls@.len(),
        ensures
            old(self).finished ==> *final(self) == *old(self) && step == FetchStep::Done(
                Err(Error::OutOfOrder),
            ),
            !old(self).finished && event is NotFound ==> after_tried(
                config.pdfset_urls@,
                old(self).name,
                old(self).tried as int,
                *final(self),
                step,
            ),
            !old(self).finished && event is Unpacked ==> *final(self) == (Download {
                name: old(self).name,
                tried: old(self).tried,
                finished: true,
            }) && step == FetchStep::Done(Ok(Acquisition::Installed)),
            !old(self).finished ==> (event matches FetchEvent::Failed(e) ==> *final(self) == (
            Download { name: old(self).name, tried: old(self).tried, finished: true })
                && step == FetchStep::Done(Err(e))),
            final(self).tried <= config.pdfset_urls@.len(),
    {
        if self.finished {
            return FetchStep::Done(Err(Error::OutOfOrder));
        }
        match event {
            FetchEvent::NotFound => self.request_next(config),
            FetchEvent::Unpacked => {
                self.finished = true;
                FetchStep::Done(Ok(Acquisition::Installed))
            },
            FetchEvent::Failed(e) => {
                self.finished = true;
                FetchStep::Done(Err(e))
            },
        }
    }
}

} // verus!
