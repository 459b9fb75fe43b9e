//! The files that were open when the program last ended in a work tree.
use crate::strings::hex_digits;
use crate::strings::hexadecimal;
use crate::strings::texts;
use vstd::prelude::*;
use vstd::string::*;

verus! {

/// What is kept of a session.
#[derive(Debug)]
pub struct SessionData {
    pub files: Vec<String>,
}

/// What is done with the file of a session.
#[derive(Debug)]
pub enum SessionPlan {
    /// Remove it.
    Remove,
    /// Write these data into it.
    Write(SessionData),
}

/// The texts of those of the first `n` options that are there.
pub open spec fn present(paths: Seq<Option<String>>, n: int) -> Seq<Seq<char>>
    decreases n,
{
    if n <= 0 {
        Seq::empty()
    } else {
        match paths[n - 1] {
            Some(p) => present(paths, n - 1).push(p@),
            None => present(paths, n - 1),
        }
    }
}

/// Those of the first `n` files that exist.
pub open spec fn existing(files: Seq<Seq<char>>, exists: Seq<bool>, n: int) -> Seq<Seq<char>>
    decreases n,
{
    if n <= 0 {
        Seq::empty()
    } else if exists[n - 1] {
        existing(files, exists, n - 1).push(files[n - 1])
    } else {
        existing(files, exists, n - 1)
    }
}

/// The name of a session's file, for the hash of its work tree.
pub fn session_file_name(hash: u64) -> (r: String)
    ensures
        r@ == hex_digits(hash as nat) + ".json"@,
{
    let mut s = hexadecimal(hash);
    s.append(".json");
    s
}

/// Decides what is kept of a session whose tabs have documents at these paths.
pub fn save_session(paths: &Vec<Option<String>>) -> (r: SessionPlan)
    ensures
        match r {
            SessionPlan::Remove => present(paths@, paths@.len() as int).len() == 0,
            SessionPlan::Write(data) => {
                &&& texts(data.files@) == present(paths@, paths@.len() as int)
                &&& data.files@.len() > 0
            },
        },
{
    let mut files: Vec<String> = Vec::new();
    let mut i: usize = 0;
    assert(texts(files@) =~= Seq::empty());
    while i < paths.len()
        invariant
            i <= paths@.len(),
            texts(files@) == present(paths@, i as int),
        decreases paths@.len() - i,
    {
        match &paths[i] {
            Some(p) => {
                let ghost before = files@;
                files.push(p.clone());
                assert(texts(files@) =~= texts(before).push(p@));
            },
            None => {},
        }
        i = i + 1;
    }
    assert(texts(files@).len() == files@.len());
    if files.len() == 0 {
        SessionPlan::Remove
    } else {
        SessionPlan::Write(SessionData { files })
    }
}

/// The files of a session that are opened again: those that still exist. Nothing if there are none.
pub fn load_session(data: SessionData, exists: &Vec<bool>) -> (r: Option<Vec<String>>)
    requires
        exists@.len() == data.files@.len(),
    ensures
        ({
            let files = existing(texts(data.files@), exists@, exists@.len() as int);
            match r {
                Some(v) => texts(v@) == files && files.len() > 0,
                None => files.len() == 0,
            }
        }),
{
    let ghost all = data.files@;
    let count: usize = exists.len();
    let mut files: Vec<String> = Vec::new();
    let mut i: usize = 0;
    assert(texts(files@) =~= Seq::empty());
    for f in it: data.files
        invariant
            it.seq() == all,
            i == it.index(),
            count == exists@.len() == all.len(),
            texts(files@) == existing(texts(all), exists@, i as int),
    {
        assert(texts(all)[i as int] == f@);
        if exists[i] {
            let ghost before = files@;
            files.push(f);
            assert(texts(files@) =~= texts(before).push(f@));
        }
        i = i + 1;
    }
    assert(texts(files@).len() == files@.len());
    if files.len() == 0 {
        None
    } else {
        Some(files)
    }
}

/// A session whose files all still exist is opened again as it was.
pub proof fn law_session_round_trip(files: Seq<Seq<char>>, exists: Seq<bool>, n: int)
    requires
        0 <= n <= files.len(),
        exists.len() == files.len(),
        forall|i: int| 0 <= i < exists.len() ==> #[trigger] exists[i],
    ensures
        existing(files, exists, n) == files.take(n),
    decreases n,
{
    if n > 0 {
        law_session_round_trip(files, exists, n - 1);
        assert(exists[n - 1]);
        assert(files.take(n) =~= files.take(n - 1).push(files[n - 1]));
    } else {
        assert(files.take(0) =~= Seq::empty());
    }
}

/// A session keeps the files of all tabs that have one, in their order.
pub proof fn law_session_keeps_files(paths: Seq<Option<String>>, n: int)
    requires
        0 <= n <= paths.len(),
    ensures
        present(paths, n) == paths.take(n).filter(|p: Option<String>| p is Some).map_values(
            |p: Option<String>| p->0@,
        ),
    decreases n,
{
    reveal(Seq::filter);
    if n > 0 {
        law_session_keeps_files(paths, n - 1);
        assert(paths.take(n).drop_last() =~= paths.take(n - 1));
    } else {
        assert(paths.take(n) =~= Seq::empty());
    }
    assert(present(paths, n) =~= paths.take(n).filter(|p: Option<String>| p is Some).map_values(
        |p: Option<String>| p->0@,
    ));
}

/// A file of a session that still exists is opened again.
pub proof fn law_existing_files_are_opened(files: Seq<Seq<char>>, exists: Seq<bool>, n: int, k: int)
    requires
        0 <= k < n <= files.len(),
        exists.len() == files.len(),
        exists[k],
    ensures
        existing(files, exists, n).contains(files[k]),
    decreases n,
{
    let all = existing(files, exists, n);
    let prev = existing(files, exists, n - 1);
    if k < n - 1 {
        law_existing_files_are_opened(files, exists, n - 1, k);
        let m = choose|m: int| 0 <= m < prev.len() && prev[m] == files[k];
        assert(all[m] == files[k]);
    } else {
        assert(all[prev.len() as int] == files[k]);
    }
}

/// Only files of the session that still exist are opened again.
pub proof fn law_gone_files_are_not_opened(files: Seq<Seq<char>>, exists: Seq<bool>, n: int, m: int)
    requires
        0 <= n <= files.len(),
        exists.len() == files.len(),
        0 <= m < existing(files, exists, n).len(),
    ensures
        exists|k: int| 0 <= k < n && #[trigger] files[k] == existing(files, exists, n)[m] && exists[k],
    decreases n,
{
    if n > 0 {
        let prev = existing(files, exists, n - 1);
        if m < prev.len() {
            law_gone_files_are_not_opened(files, exists, n - 1, m);
            let k = choose|k: int| 0 <= k < n - 1 && #[trigger] files[k] == prev[m] && exists[k];
            assert(files[k] == existing(files, exists, n)[m]);
        } else {
            assert(files[n - 1] == existing(files, exists, n)[m]);
        }
    }
}

} // verus!
