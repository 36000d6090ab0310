//! The configuration of the managed layer.
use vstd::prelude::*;

verus! {

/// Configuration for this library: where data sets are read from and written to, and where
/// they are downloaded from.
#[derive(Debug, Clone, PartialEq, Eq)]
pub struct Config {
    /// Directories that are searched for sets but never written to, in order.
    pub lhapdf_data_path_read: Vec<String>,
    /// The one directory that sets and the index are downloaded to; empty in read-only mode.
    pub lhapdf_data_path_write: String,
    /// The URL that the index file is downloaded from.
    pub pdfsets_index_url: String,
    /// The base URLs that are searched for set archives, in order.
    pub pdfset_urls: Vec<String>,
}

/// The name of the directory, inside the user's data directory, that sets are written to by
/// default.
pub const DATA_DIR_NAME: &'static str = "managed-lhapdf";

/// The URL that the index file is downloaded from by default.
pub const DEFAULT_INDEX_URL: &'static str = "https://lhapdfsets.web.cern.ch/current/pdfsets.index";

/// The repository that set archives are downloaded from by default.
pub const DEFAULT_SET_URL: &'static str = "https://lhapdfsets.web.cern.ch/current/";

/// The pieces of a colon-separated list of paths, in order; empty pieces are kept, and there
/// is always at least one.
pub open spec fn split_paths(s: Seq<char>) -> Seq<Seq<char>>
    decreases s.len(),
{
    if s.len() == 0 {
        seq![Seq::empty()]
    } else {
        let pieces = split_paths(s.drop_last());
        if s.last() == ':' {
            pieces.push(Seq::empty())
        } else {
            pieces.update(pieces.len() - 1, pieces.last().push(s.last()))
        }
    }
}

/// The list of paths `parts` written with colons between them.
pub open spec fn join_paths(parts: Seq<Seq<char>>) -> Seq<char>
    decreases parts.len(),
{
    if parts.len() == 0 {
        Seq::empty()
    } else if parts.len() == 1 {
        parts[0]
    } else {
        join_paths(parts.drop_last()) + ":"@ + parts.last()
    }
}

/// The text of each string of `v`.
pub open spec fn texts(v: Seq<String>) -> Seq<Seq<char>> {
    v.map_values(|p: String| p@)
}

/// There is always at least one piece.
pub proof fn lemma_split_paths_nonempty(s: Seq<char>)
    ensures
        split_paths(s).len() >= 1,
    decreases s.len(),
{
    if s.len() > 0 {
        lemma_split_paths_nonempty(s.drop_last());
    }
}

/// Splits a colon-separated list of paths.
pub fn split_search_path(s: &str) -> (r: Vec<String>)
    ensures
        texts(r@) == split_paths(s@),
{
    let n = s.unicode_len();
    let mut pieces: Vec<String> = Vec::new();
    let mut start: usize = 0;
    let mut i: usize = 0;
    proof {
        assert(s@.subrange(0, 0) =~= Seq::<char>::empty());
        assert(texts(pieces@) =~= Seq::<Seq<char>>::empty());
    }
    while i < n
        invariant
            n == s@.len(),
            start <= i <= n,
            split_paths(s@.subrange(0, i as int)) == texts(pieces@).push(
                s@.subrange(start as int, i as int),
            ),
        decreases n - i,
    {
        let c = s.get_char(i);
        proof {
            assert(s@.subrange(0, i + 1).drop_last() =~= s@.subrange(0, i as int));
            assert(s@.subrange(0, i + 1).last() == c);
        }
        if c == ':' {
            let piece = String::from_str(s.substring_char(start, i));
            let ghost before = pieces@;
            pieces.push(piece);
            proof {
                assert(texts(pieces@) =~= texts(before).push(piece@)) by {
                    assert(pieces@ =~= before.push(piece));
                }
                assert(s@.subrange(i + 1, i + 1) =~= Seq::<char>::empty());
            }
            start = i + 1;
        } else {
            proof {
                assert(s@.subrange(start as int, i as int).push(c) =~= s@.subrange(
                    start as int,
                    i + 1,
                ));
                assert(texts(pieces@).push(s@.subrange(start as int, i as int)).update(
                    texts(pieces@).len() as int,
                    s@.subrange(start as int, i + 1),
                ) =~= texts(pieces@).push(s@.subrange(start as int, i + 1)));
            }
        }
        i = i + 1;
    }
    let last = String::from_str(s.substring_char(start, n));
    let ghost before = pieces@;
    pieces.push(last);
    proof {
        assert(s@.subrange(0, n as int) =~= s@);
        assert(pieces@ =~= before.push(last));
        assert(texts(pieces@) =~= texts(before).push(last@));
    }
    pieces
}

impl Config {
    /// The configuration that is written when there is none yet: sets go to `default_write`,
    /// and the index and the sets come from the default repository. A search path given by
    /// the user (`search_path`, colon-separated) overrides the directories: its first path
    /// becomes the write directory, the others are searched too.
    pub fn with_defaults(default_write: String, search_path: Option<&str>) -> (r: Config)
        ensures
            search_path is None ==> r.lhapdf_data_path_write@ == default_write@
                && r.lhapdf_data_path_read@.len() == 0,
            search_path matches Some(p) ==> r.lhapdf_data_path_write@ == split_paths(p@)[0]
                && texts(r.lhapdf_data_path_read@) == split_paths(p@).drop_first(),
            r.pdfsets_index_url@ == DEFAULT_INDEX_URL@,
            texts(r.pdfset_urls@) == seq![DEFAULT_SET_URL@],
    {
        let mut set_urls: Vec<String> = Vec::new();
        let set_url = String::from_str(DEFAULT_SET_URL);
        set_urls.push(set_url);
        proof {
            assert(texts(set_urls@) =~= seq![DEFAULT_SET_URL@]);
        }
        let index_url = String::from_str(DEFAULT_INDEX_URL);
        match search_path {
            None => Config {
                lhapdf_data_path_read: Vec::new(),
                lhapdf_data_path_write: default_write,
                pdfsets_index_url: index_url,
                pdfset_urls: set_urls,
            },
            Some(p) => {
                let mut paths = split_search_path(p);
                proof {
                    lemma_split_paths_nonempty(p@);
                }
                let ghost all = paths@;
                let write = paths.remove(0);
                proof {
                    assert(paths@ =~= all.drop_first());
                    assert(texts(paths@) =~= texts(all).drop_first());
                }
                Config {
                    lhapdf_data_path_read: paths,
                    lhapdf_data_path_write: write,
                    pdfsets_index_url: index_url,
                    pdfset_urls: set_urls,
                }
            },
        }
    }

    /// The directories that are searched for sets: the write directory, if any, first.
    pub open spec fn search_dirs(&self) -> Seq<Seq<char>> {
        (if self.writable() {
            seq![self.lhapdf_data_path_write@]
        } else {
            Seq::empty()
        }) + texts(self.lhapdf_data_path_read@)
    }

    /// The search path, colon-separated, that LHAPDF is told to use so that it finds the
    /// same directories: the write directory, if any, and then the read directories.
    pub fn lhapdf_data_path(&self) -> (r: String)
        ensures
            r@ == join_paths(self.search_dirs()),
    {
        let mut path = String::new();
        let mut any: bool = false;
        let ghost first: Seq<Seq<char>> = if self.writable() {
            seq![self.lhapdf_data_path_write@]
        } else {
            Seq::empty()
        };
        if let Some(write) = self.lhapdf_data_path_write() {
            path.append(write);
            any = true;
            proof {
                assert(join_paths(first) == first[0]);
            }
        }
        let reads = &self.lhapdf_data_path_read;
        let mut j: usize = 0;
        while j < reads.len()
            invariant
                reads == &self.lhapdf_data_path_read,
                j <= reads@.len(),
                any == (first.len() + j > 0),
                first.len() <= 1,
                self.search_dirs() == first + texts(reads@),
                path@ == join_paths(first + texts(reads@).subrange(0, j as int)),
            decreases reads.len() - j,
        {
            let ghost done = first + texts(reads@).subrange(0, j as int);
            let ghost more = first + texts(reads@).subrange(0, j + 1);
            proof {
                assert(more.drop_last() =~= done);
                assert(more.last() == reads@[j as int]@);
                assert(done.len() == first.len() + j);
            }
            if any {
                path.append(":");
            }
            path.append(reads[j].as_str());
            any = true;
            j = j + 1;
        }
        proof {
            assert(texts(reads@).subrange(0, j as int) =~= texts(reads@));
        }
        path
    }

    /// Return the URL where the index file is downloaded from.
    pub fn pdfsets_index_url(&self) -> (r: &str)
        ensures
            r@ == self.pdfsets_index_url@,
    {
        self.pdfsets_index_url.as_str()
    }

    /// Return the URLs that are searched for sets that are not in the local cache.
    pub fn pdfset_urls(&self) -> (r: &[String])
        ensures
            r@ == self.pdfset_urls@,
    {
        self.pdfset_urls.as_slice()
    }

    /// Whether a write directory is configured.
    pub open spec fn writable(&self) -> bool {
        self.lhapdf_data_path_write@.len() > 0
    }

    /// Return the path where sets and the index are downloaded to, or `None` in read-only mode.
    pub fn lhapdf_data_path_write(&self) -> (r: Option<&str>)
        ensures
            r is Some <==> self.writable(),
            r matches Some(s) ==> s@ == self.lhapdf_data_path_write@,
    {
        if self.lhapdf_data_path_write.as_str().is_empty() {
            None
        } else {
            Some(self.lhapdf_data_path_write.as_str())
        }
    }
}

} // verus!
