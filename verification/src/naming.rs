//! Free names for new and copied items: `name (2).ext`, `name (3).ext`, ...
//! The first number not yet taken in the folder is chosen, and one always
//! exists among the first `taken.len() + 1` numbers.

use vstd::prelude::*;
use vstd::set_lib::lemma_len_subset;
use vstd::assert_by_contradiction;
use crate::paths::{file_name_or_default, file_name_or_empty, parent_text, path_parent, split_stem_extension, stem_and_extension, strings_view};
use crate::text::{concat, concat3, decimal, digit_char, u64_to_decimal};

verus! {

/// `stem (n)ext`, the name of the `n`-th numbered variant.
pub open spec fn numbered_name(stem: Seq<char>, n: nat, ext: Seq<char>) -> Seq<char> {
    stem + seq![' ', '('] + decimal(n) + seq![')'] + ext
}

/// `dir` joined with `name` as `Path::join` joins them, with `/` as the
/// separator: an absolute `name` (one starting with `/`) replaces `dir`;
/// otherwise a separator goes between them, except after an empty `dir` or
/// one already ending in `/`.
pub open spec fn joined(dir: Seq<char>, name: Seq<char>) -> Seq<char> {
    if name.len() > 0 && name[0] == '/' {
        name
    } else if dir.len() == 0 || dir.last() == '/' {
        dir + name
    } else {
        dir + seq!['/'] + name
    }
}

/// `name` is `stem (n)ext` for the least `n >= 2` whose name `taken` does not
/// hold.
pub open spec fn first_free_numbered(stem: Seq<char>, ext: Seq<char>, taken: Seq<Seq<char>>, name: Seq<char>) -> bool {
    exists|n: nat|
        2 <= n && name == numbered_name(stem, n, ext) && !taken.contains(name) && forall|k: nat|
            2 <= k < n ==> taken.contains(#[trigger] numbered_name(stem, k, ext))
}

/// `name` is `stem + ext` when `taken` does not hold it, otherwise the first
/// free numbered name.
pub open spec fn first_free(stem: Seq<char>, ext: Seq<char>, taken: Seq<Seq<char>>, name: Seq<char>) -> bool {
    if !taken.contains(stem + ext) {
        name == stem + ext
    } else {
        first_free_numbered(stem, ext, taken, name)
    }
}

/// The parent of a path, or the path itself when it has none
/// (`parent().unwrap_or(path)`).
pub open spec fn parent_or_self(path: Seq<char>) -> Seq<char> {
    match parent_text(path) {
        Some(p) => p,
        None => path,
    }
}

/// The stem of a path's file name (`file_stem().unwrap_or_default()`).
pub open spec fn name_stem(path: Seq<char>) -> Seq<char> {
    split_stem_extension(file_name_or_empty(path)).0
}

/// The extension of a path's file name with its dot, or nothing.
pub open spec fn dotted_extension(path: Seq<char>) -> Seq<char> {
    match split_stem_extension(file_name_or_empty(path)).1 {
        Some(e) => seq!['.'] + e,
        None => Seq::empty(),
    }
}

proof fn lemma_decimal_len(n: nat)
    ensures
        decimal(n).len() >= 1,
        n >= 10 ==> decimal(n).len() >= 2,
    decreases n,
{
    if n >= 10 {
        lemma_decimal_len(n / 10);
    }
}

/// Distinct numbers are written differently.
proof fn lemma_decimal_injective(a: nat, b: nat)
    requires
        decimal(a) == decimal(b),
    ensures
        a == b,
    decreases a,
{
    lemma_decimal_len(a);
    lemma_decimal_len(b);
    if a < 10 && b < 10 {
        assert(decimal(a)[0] == digit_char(a));
        assert(decimal(b)[0] == digit_char(b));
    } else if a >= 10 && b >= 10 {
        lemma_decimal_len(a / 10);
        lemma_decimal_len(b / 10);
        assert(decimal(a).drop_last() =~= decimal(a / 10));
        assert(decimal(b).drop_last() =~= decimal(b / 10));
        assert(decimal(a).last() == digit_char(a % 10));
        assert(decimal(b).last() == digit_char(b % 10));
        lemma_decimal_injective(a / 10, b / 10);
    } else {
        if a < 10 {
            lemma_decimal_len(b);
        } else {
            lemma_decimal_len(a);
        }
    }
}

/// Distinct numbers give distinct numbered names.
proof fn lemma_numbered_injective(stem: Seq<char>, a: nat, b: nat, ext: Seq<char>)
    requires
        numbered_name(stem, a, ext) == numbered_name(stem, b, ext),
    ensures
        a == b,
{
    let p = stem + seq![' ', '('];
    let x = numbered_name(stem, a, ext);
    let y = numbered_name(stem, b, ext);
    assert(x.len() == p.len() + decimal(a).len() + 1 + ext.len());
    assert(y.len() == p.len() + decimal(b).len() + 1 + ext.len());
    assert(x.subrange(p.len() as int, (p.len() + decimal(a).len()) as int) =~= decimal(a));
    assert(y.subrange(p.len() as int, (p.len() + decimal(b).len()) as int) =~= decimal(b));
    lemma_decimal_injective(a, b);
}

/// Some numbered name from 2 to `taken.len() + 2` is missing from any list of
/// names `taken`.
proof fn lemma_some_number_free(stem: Seq<char>, ext: Seq<char>, taken: Seq<Seq<char>>)
    ensures
        exists|k: nat| 2 <= k <= taken.len() + 2 && !taken.contains(#[trigger] numbered_name(stem, k, ext)),
{
    let m = taken.len();
    let s = Seq::new(m + 1, |i: int| numbered_name(stem, (i + 2) as nat, ext));
    assert_by_contradiction!(exists|k: nat| 2 <= k <= m + 2 && !taken.contains(#[trigger] numbered_name(stem, k, ext)), {
        assert(s.no_duplicates()) by {
            assert forall|i: int, j: int| 0 <= i < s.len() && 0 <= j < s.len() && i != j implies s[i]
                != s[j] by {
                if s[i] == s[j] {
                    lemma_numbered_injective(stem, (i + 2) as nat, (j + 2) as nat, ext);
                }
            }
        }
        s.unique_seq_to_set();
        taken.lemma_cardinality_of_set();
        assert(s.to_set().subset_of(taken.to_set())) by {
            assert forall|x: Seq<char>| s.to_set().contains(x) implies taken.to_set().contains(x) by {
                assert(s.contains(x));
                let i = choose|i: int| 0 <= i < s.len() && s[i] == x;
                assert(taken.contains(numbered_name(stem, (i + 2) as nat, ext)));
            }
        }
        broadcast use vstd::seq_lib::seq_to_set_is_finite;
        lemma_len_subset(s.to_set(), taken.to_set());
    });
}

/// Whether `names` holds the text `name`.
pub fn holds_name(names: &Vec<String>, name: &str) -> (r: bool)
    ensures
        r == strings_view(names@).contains(name@),
{
    let mut i: usize = 0;
    while i < names.len()
        invariant
            i <= names@.len(),
            forall|j: int| 0 <= j < i ==> names@[j]@ != name@,
        decreases names@.len() - i,
    {
        if crate::paths::same_text(&names[i], &name.to_owned()) {
            proof {
                assert(strings_view(names@)[i as int] == name@);
            }
            return true;
        }
        i = i + 1;
    }
    proof {
        if strings_view(names@).contains(name@) {
            let j = choose|j: int| 0 <= j < strings_view(names@).len() && strings_view(names@)[j] == name@;
            assert(names@[j]@ == name@);
        }
    }
    false
}

/// `stem (n)ext`.
pub fn numbered(stem: &str, n: u64, ext: &str) -> (r: String)
    ensures
        r@ == numbered_name(stem@, n as nat, ext@),
{
    let head = concat3(stem, " (", u64_to_decimal(n).as_str());
    let r = concat3(head.as_str(), ")", ext);
    proof {
        reveal_strlit(" (");
        reveal_strlit(")");
        assert(r@ =~= numbered_name(stem@, n as nat, ext@));
    }
    r
}

/// The first numbered name `stem (n)ext`, from `n = 2` on, that `taken` does
/// not hold, with its number.
pub fn first_free_number(stem: &str, ext: &str, taken: &Vec<String>) -> (r: (String, u64))
    requires
        taken@.len() + 2 <= u64::MAX,
    ensures
        2 <= r.1 <= taken@.len() + 2,
        r.0@ == numbered_name(stem@, r.1 as nat, ext@),
        !strings_view(taken@).contains(r.0@),
        forall|k: nat| 2 <= k < r.1 ==> strings_view(taken@).contains(#[trigger] numbered_name(stem@, k, ext@)),
{
    let ghost names = strings_view(taken@);
    let bound: u64 = taken.len() as u64 + 2;
    let mut n: u64 = 2;
    loop
        invariant
            names == strings_view(taken@),
            bound == taken@.len() + 2,
            2 <= n <= bound,
            forall|k: nat| 2 <= k < n ==> names.contains(#[trigger] numbered_name(stem@, k, ext@)),
        decreases bound - n,
    {
        let candidate = numbered(stem, n, ext);
        if !holds_name(taken, candidate.as_str()) {
            return (candidate, n);
        }
        proof {
            if n == bound {
                lemma_some_number_free(stem@, ext@, names);
                let k = choose|k: nat| 2 <= k <= names.len() + 2 && !names.contains(
                    #[trigger] numbered_name(stem@, k, ext@),
                );
                if k < n {
                    assert(names.contains(numbered_name(stem@, k, ext@)));
                }
            }
        }
        n = n + 1;
    }
}

/// The name a new or copied item takes in a folder holding `taken`:
/// `stem + ext` when it is free, otherwise the first free `stem (n)ext`.
pub fn first_free_name(stem: &str, ext: &str, taken: &Vec<String>) -> (r: String)
    requires
        taken@.len() + 2 <= u64::MAX,
    ensures
        first_free(stem@, ext@, strings_view(taken@), r@),
{
    let plain = concat(stem, ext);
    if !holds_name(taken, plain.as_str()) {
        plain
    } else {
        let (r, n) = first_free_number(stem, ext, taken);
        proof {
            assert(2 <= n as nat && r@ == numbered_name(stem@, n as nat, ext@));
        }
        r
    }
}

/// `dir` joined with `name` (`Path::join`).
pub fn join_name(dir: &str, name: &str) -> (r: String)
    ensures
        r@ == joined(dir@, name@),
{
    let ns = crate::text::chars_of(name);
    if ns.len() > 0 && ns[0] == '/' {
        return name.to_owned();
    }
    let ds = crate::text::chars_of(dir);
    if ds.len() == 0 || ds[ds.len() - 1] == '/' {
        proof {
            if ds.len() > 0 {
                assert(dir@.last() == ds@[ds@.len() - 1]);
            }
        }
        concat(dir, name)
    } else {
        let r = concat3(dir, "/", name);
        proof {
            reveal_strlit("/");
            assert(dir@.last() == ds@[ds@.len() - 1]);
            assert(r@ =~= joined(dir@, name@));
        }
        r
    }
}

/// The parent of a path, or the path itself when it has none.
pub fn parent_or_self_of(path: &str) -> (r: String)
    ensures
        r@ == parent_or_self(path@),
{
    match path_parent(path) {
        Some(p) => p,
        None => path.to_owned(),
    }
}

/// The stem of a path's file name and its extension with the dot (empty when
/// it has none).
pub fn stem_and_dotted_extension(path: &str) -> (r: (String, String))
    ensures
        r.0@ == name_stem(path@),
        r.1@ == dotted_extension(path@),
{
    let name = file_name_or_default(path);
    let (stem, ext) = stem_and_extension(name.as_str());
    match ext {
        Some(e) => {
            let dotted = concat(".", e.as_str());
            proof {
                reveal_strlit(".");
                assert(dotted@ =~= seq!['.'] + e@);
            }
            (stem, dotted)
        },
        None => (stem, String::new()),
    }
}

} // verus!
