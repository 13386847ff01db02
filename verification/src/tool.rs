//! The decisions of the command-line tool: which files are books, and how
//! many threads to run.

use vstd::prelude::*;

use crate::normalize::opt_view;
use crate::paths::{extension, file_stem, path_extension, path_file_stem};
use crate::text::{lowercase_text, str_to_lowercase, text_is};

verus! {

/// Whether the lowercase of the optional extension `e` is `ext`.
pub open spec fn has_extension(e: Option<Seq<char>>, ext: Seq<char>) -> bool {
    match e {
        Some(x) => lowercase_text(x) == ext,
        None => false,
    }
}

/// Whether the file at `path` is an FB2 book: its extension is `.fb2` or
/// `.fb2.zip`, in any case (extensions as `Path::extension` takes them: the
/// text after the last `.` of the file name, and for `.fb2.zip` the same of
/// the file stem).
pub open spec fn spec_is_fb2_file(path: Seq<char>) -> bool {
    ||| has_extension(path_extension(path), "fb2"@)
    ||| has_extension(path_extension(path), "zip"@) && match path_file_stem(path) {
        Some(stem) => has_extension(path_extension(stem), "fb2"@),
        None => false,
    }
}

fn extension_is(e: &Option<String>, ext: &str) -> (r: bool)
    ensures
        r == has_extension(opt_view(*e), ext@),
{
    match e {
        None => false,
        Some(x) => {
            let lower = str_to_lowercase(x.as_str());
            text_is(lower.as_str(), ext)
        },
    }
}

/// Whether the file at `path` is an FB2 book (see [`spec_is_fb2_file`]).
pub fn is_fb2_file(path: &str) -> (r: bool)
    ensures
        r == spec_is_fb2_file(path@),
{
    let ext = extension(path);
    if extension_is(&ext, "fb2") {
        return true;
    }
    if !extension_is(&ext, "zip") {
        return false;
    }
    match file_stem(path) {
        None => false,
        Some(stem) => extension_is(&extension(stem.as_str()), "fb2"),
    }
}

/// The number of cores assumed when the machine does not say.
pub const DEFAULT_CORES: usize = 8;

/// The number of CPU cores: as reported, or [`DEFAULT_CORES`].
pub fn cores_or_default(parallelism: Option<usize>) -> (r: usize)
    ensures
        r == match parallelism {
            Some(n) => n,
            None => DEFAULT_CORES,
        },
{
    match parallelism {
        Some(n) => n,
        None => DEFAULT_CORES,
    }
}

/// The sizes of the async runtime: worker threads and the limit of blocking
/// threads.
pub struct RuntimeSize {
    pub worker_threads: usize,
    pub max_blocking_threads: usize,
}

/// The runtime for `cores` cores: the jobs default to three quarters of the
/// cores, the I/O workers to half of them but at least 4, and the blocking
/// threads to the jobs.
pub fn runtime_size(cores: usize, jobs: Option<usize>, io_threads: Option<usize>, blocking_threads: Option<usize>) -> (r: RuntimeSize)
    requires
        cores * 3 <= usize::MAX,
    ensures
        r.worker_threads == match io_threads {
            Some(n) => n,
            None => if cores / 2 >= 4 {
                cores / 2
            } else {
                4
            },
        },
        r.max_blocking_threads == match blocking_threads {
            Some(n) => n as int,
            None => match jobs {
                Some(j) => j as int,
                None => (cores * 3) / 4,
            },
        },
{
    let jobs = match jobs {
        Some(j) => j,
        None => (cores * 3) / 4,
    };
    let io = match io_threads {
        Some(n) => n,
        None => if cores / 2 >= 4 {
            cores / 2
        } else {
            4
        },
    };
    let blocking = match blocking_threads {
        Some(n) => n,
        None => jobs,
    };
    RuntimeSize { worker_threads: io, max_blocking_threads: blocking }
}

/// The number of threads of the global compute pool: the jobs asked for, or
/// one per core.
pub fn compute_threads(cores: usize, jobs: Option<usize>) -> (r: usize)
    ensures
        r == match jobs {
            Some(j) => j,
            None => cores,
        },
{
    match jobs {
        Some(j) => j,
        None => cores,
    }
}

} // verus!
