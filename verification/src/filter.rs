//! The extension filter: which file names an allow-set of extensions admits.

use vstd::prelude::*;
use vstd::string::*;

verus! {

/// Index of the last `.` in `name`, if it holds one.
pub open spec fn last_dot(name: Seq<char>) -> Option<int>
    decreases name.len(),
{
    if name.len() == 0 {
        None
    } else if name.last() == '.' {
        Some(name.len() - 1)
    } else {
        last_dot(name.drop_last())
    }
}

/// The extension of a file name: what follows its last `.`, or the empty
/// string where the name holds no `.` at all.
pub open spec fn extension_of(name: Seq<char>) -> Seq<char> {
    match last_dot(name) {
        Some(i) => name.subrange(i + 1, name.len() as int),
        None => Seq::empty(),
    }
}

/// `last_dot` finds a `.`, nothing but other characters follow it, and it
/// finds none only where there is none.
pub proof fn lemma_last_dot(name: Seq<char>)
    ensures
        match last_dot(name) {
            Some(i) => 0 <= i < name.len() && name[i] == '.' && forall|j: int|
                i < j < name.len() ==> name[j] != '.',
            None => forall|j: int| 0 <= j < name.len() ==> name[j] != '.',
        },
    decreases name.len(),
{
    if name.len() > 0 && name.last() != '.' {
        let front = name.drop_last();
        lemma_last_dot(front);
        assert forall|j: int| 0 <= j < front.len() implies front[j] == name[j] by {}
        match last_dot(front) {
            Some(i) => {
                assert forall|j: int| i < j < name.len() implies name[j] != '.' by {
                    if j < front.len() {
                        assert(front[j] != '.');
                    }
                }
            },
            None => {
                assert forall|j: int| 0 <= j < name.len() implies name[j] != '.' by {
                    if j < front.len() {
                        assert(front[j] != '.');
                    }
                }
            },
        }
    }
}

/// What the extension of a name is. It holds no `.`. Where the name holds a
/// `.`, the name is a stem, a `.` and the extension; where it holds none,
/// the extension is empty.
pub proof fn law_extension(name: Seq<char>)
    ensures
        !extension_of(name).contains('.'),
        name.contains('.') ==> exists|stem: Seq<char>|
            name == #[trigger] (stem + seq!['.']) + extension_of(name),
        !name.contains('.') ==> extension_of(name) == Seq::<char>::empty(),
{
    lemma_last_dot(name);
    let ext = extension_of(name);
    match last_dot(name) {
        Some(i) => {
            assert forall|j: int| 0 <= j < ext.len() implies ext[j] != '.' by {
                assert(ext[j] == name[i + 1 + j]);
            }
            let stem = name.subrange(0, i);
            assert(name =~= (stem + seq!['.']) + ext);
        },
        None => {
            if name.contains('.') {
                let j = choose|j: int| 0 <= j < name.len() && name[j] == '.';
                assert(name[j] != '.');
            }
        },
    }
}

/// Computes the extension of `name`.
pub fn file_extension(name: &str) -> (ext: String)
    ensures
        ext@ == extension_of(name@),
{
    let n: usize = name.unicode_len();
    let mut dot: Option<usize> = None;
    let mut i: usize = 0;
    while i < n
        invariant
            n == name@.len(),
            i <= n,
            match dot {
                Some(d) => last_dot(name@.take(i as int)) == Some(d as int) && d < i,
                None => last_dot(name@.take(i as int)) is None,
            },
        decreases n - i,
    {
        let c = name.get_char(i);
        proof {
            let next = name@.take(i + 1);
            assert(next.drop_last() == name@.take(i as int));
            assert(next.last() == c);
        }
        if c == '.' {
            dot = Some(i);
        }
        i = i + 1;
    }
    proof {
        assert(name@.take(n as int) == name@);
    }
    match dot {
        Some(d) => String::from_str(name.substring_char(d + 1, n)),
        None => String::new(),
    }
}

/// The wildcard token: an allow-set that holds it admits every file.
pub open spec fn wildcard() -> Seq<char> {
    seq!['*']
}

/// The allow-set that a list of extension tokens stands for.
pub open spec fn allow_set(tokens: Seq<String>) -> Set<Seq<char>> {
    Set::new(|e: Seq<char>| exists|i: int| 0 <= i < tokens.len() && #[trigger] tokens[i]@ == e)
}

/// Whether an allow-set admits a file of the given name: it holds the
/// wildcard, or it holds the name's extension, compared character by
/// character.
pub open spec fn admits(allowed: Set<Seq<char>>, name: Seq<char>) -> bool {
    allowed.contains(wildcard()) || allowed.contains(extension_of(name))
}

/// Whether `wanted` is one of `tokens`.
pub fn holds_token(tokens: &Vec<String>, wanted: &String) -> (found: bool)
    ensures
        found == allow_set(tokens@).contains(wanted@),
{
    let mut i: usize = 0;
    while i < tokens.len()
        invariant
            i <= tokens.len(),
            forall|j: int| 0 <= j < i ==> #[trigger] tokens[j]@ != wanted@,
        decreases tokens.len() - i,
    {
        if tokens[i] == *wanted {
            return true;
        }
        i = i + 1;
    }
    false
}

/// Decides whether a regular file named `name` is to be transferred under
/// the extension tokens `tokens`.
pub fn selects(tokens: &Vec<String>, name: &str) -> (wanted: bool)
    ensures
        wanted == admits(allow_set(tokens@), name@),
{
    let star = String::from_str("*");
    proof {
        reveal_strlit("*");
        assert(star@ =~= wildcard());
    }
    if holds_token(tokens, &star) {
        return true;
    }
    let ext = file_extension(name);
    holds_token(tokens, &ext)
}

} // verus!
