//! Paging output: whether to page, which pager to run, and with which
//! arguments.
//!
//! Finding programs and terminals is left to the caller, which hands in
//! what it found.

use vstd::prelude::*;
use crate::commands::script::{file_name_chars, file_name_of};
use crate::text::{chars_eq_str, chars_to_string, str_to_chars, string_of, trim, trim_chars};

verus! {

/// Whether and how output is paged.
#[derive(Debug, Clone)]
pub struct Pager {
    pager_cmd: Option<String>,
    is_tty: bool,
}

pub open spec fn opt_view(o: Option<String>) -> Option<Seq<char>> {
    match o {
        Some(s) => Some(s@),
        None => None,
    }
}

impl Pager {
    /// The path of the pager, if one was found.
    pub closed spec fn cmd_view(&self) -> Option<Seq<char>> {
        opt_view(self.pager_cmd)
    }

    /// Whether standard output is a terminal.
    pub closed spec fn tty_view(&self) -> bool {
        self.is_tty
    }

    /// A pager with the given program (if any) for output that is (or is
    /// not) a terminal.
    pub fn with_settings(pager_cmd: Option<String>, is_tty: bool) -> (p: Self)
        ensures
            p.cmd_view() == opt_view(pager_cmd),
            p.tty_view() == is_tty,
    {
        Pager { pager_cmd, is_tty }
    }

    pub fn is_tty(&self) -> (r: bool)
        ensures
            r == self.tty_view(),
    {
        self.is_tty
    }

    /// Output is paged only to a terminal, and only when a pager exists.
    pub fn should_use_pager(&self) -> (r: bool)
        ensures
            r == (self.tty_view() && self.cmd_view() is Some),
    {
        self.is_tty && self.pager_cmd.is_some()
    }

    pub fn pager_cmd(&self) -> (r: Option<&String>)
        ensures
            match r {
                Some(s) => self.cmd_view() == Some(s@),
                None => self.cmd_view() is None,
            },
    {
        match &self.pager_cmd {
            Some(s) => Some(s),
            None => None,
        }
    }

    /// The arguments to run the pager with: `less` keeps the output on the
    /// screen and passes colours through (`-X -R`); others get none.
    pub fn pager_args(&self) -> (r: Vec<String>)
        ensures
            match self.cmd_view() {
                Some(p) => if file_name_of(p) == "less"@ {
                    r@.len() == 2 && r@[0]@ == "-X"@ && r@[1]@ == "-R"@
                } else {
                    r@.len() == 0
                },
                None => r@.len() == 0,
            },
    {
        let mut args: Vec<String> = Vec::new();
        match &self.pager_cmd {
            Some(p) => {
                let name = file_name_chars(p.as_str());
                if chars_eq_str(name.as_slice(), "less") {
                    args.push(string_of("-X"));
                    args.push(string_of("-R"));
                }
            },
            None => {},
        }
        args
    }
}

/// The programs tried as pager, in order: `$PAGER` when set and not
/// empty, then `less`, `more` and `most`.
pub open spec fn pager_candidates_spec(pager_env: Option<Seq<char>>) -> Seq<Seq<char>> {
    let fallbacks = seq!["less"@, "more"@, "most"@];
    match pager_env {
        Some(p) => if p.len() > 0 {
            seq![p] + fallbacks
        } else {
            fallbacks
        },
        None => fallbacks,
    }
}

pub fn pager_candidates(pager_env: Option<&str>) -> (r: Vec<String>)
    ensures
        r@.map_values(|s: String| s@) == pager_candidates_spec(
            match pager_env {
                Some(p) => Some(p@),
                None => None,
            },
        ),
{
    let mut v: Vec<String> = Vec::new();
    match pager_env {
        Some(p) => {
            if p.unicode_len() > 0 {
                v.push(string_of(p));
            }
        },
        None => {},
    }
    v.push(string_of("less"));
    v.push(string_of("more"));
    v.push(string_of("most"));
    let ghost pe = match pager_env {
        Some(p) => Some(p@),
        None => None::<Seq<char>>,
    };
    assert(v@.map_values(|s: String| s@) =~= pager_candidates_spec(pe));
    v
}

/// The path that the first successful lookup printed (trimmed, not
/// empty); the lookups are those of the candidates, in order, `None`
/// where the lookup failed.
pub open spec fn chosen_pager(lookups: Seq<Option<Seq<char>>>) -> Option<Seq<char>>
    decreases lookups.len(),
{
    if lookups.len() == 0 {
        None
    } else {
        match lookups[0] {
            Some(out) => if trim(out).len() > 0 {
                Some(trim(out))
            } else {
                chosen_pager(lookups.drop_first())
            },
            None => chosen_pager(lookups.drop_first()),
        }
    }
}

pub fn choose_pager(lookups: &[Option<String>]) -> (r: Option<String>)
    ensures
        opt_view(r) == chosen_pager(lookups@.map_values(|o: Option<String>| opt_view(o))),
{
    let ghost ls = lookups@.map_values(|o: Option<String>| opt_view(o));
    let n: usize = lookups.len();
    let mut i: usize = 0;
    assert(ls.subrange(0, n as int) =~= ls);
    while i < n
        invariant
            0 <= i <= n,
            n == lookups@.len(),
            ls == lookups@.map_values(|o: Option<String>| opt_view(o)),
            chosen_pager(ls) == chosen_pager(ls.subrange(i as int, n as int)),
        decreases n - i,
    {
        let ghost rest = ls.subrange(i as int, n as int);
        assert(rest[0] == opt_view(lookups@[i as int]));
        assert(rest.drop_first() =~= ls.subrange(i + 1, n as int));
        match &lookups[i] {
            Some(out) => {
                let t = trim_chars(str_to_chars(out.as_str()).as_slice());
                if t.len() > 0 {
                    return Some(chars_to_string(t.as_slice()));
                }
            },
            None => {},
        }
        i = i + 1;
    }
    None
}


/// Whether a lookup found a program: it printed a path that is not blank.
pub open spec fn lookup_found(o: Option<Seq<char>>) -> bool {
    o matches Some(out) && trim(out).len() > 0
}

/// The pager search, for any lookup `which` of a program: `$PAGER`'s path
/// when it is set, not empty and found; else the path of the first of
/// `less`, `more` and `most` that is found; else none.
pub proof fn lemma_pager_search(pager_env: Option<Seq<char>>, which: spec_fn(Seq<char>) -> Option<Seq<char>>)
    ensures
        chosen_pager(pager_candidates_spec(pager_env).map_values(|c: Seq<char>| which(c))) == (
        if pager_env matches Some(p) && p.len() > 0 && lookup_found(which(p)) {
            Some(trim(which(pager_env.unwrap()).unwrap()))
        } else {
            chosen_pager(seq![which("less"@), which("more"@), which("most"@)])
        }),
{
    let fallbacks = seq!["less"@, "more"@, "most"@];
    let fl = seq![which("less"@), which("more"@), which("most"@)];
    assert(fallbacks.map_values(|c: Seq<char>| which(c)) =~= fl);
    match pager_env {
        Some(p) => {
            if p.len() > 0 {
                let l = (seq![p] + fallbacks).map_values(|c: Seq<char>| which(c));
                assert(l[0] == which(p));
                assert(l.drop_first() =~= fl);
            }
        },
        None => {},
    }
}

} // verus!
