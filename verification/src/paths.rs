//! Path-derived names, on plain text: the document identifier from a file
//! path, and the output path derived from a marked relative input path.
use vstd::prelude::*;
use vstd::string::*;

use crate::text::{
    char_is, eq_str, find_sub, lemma_find_sub, occurs_at, spec_find_sub, starts_with_at,
};

verus! {

/// Index of the last occurrence of `p` in `s`, if any.
pub open spec fn spec_rfind_sub(s: Seq<char>, p: Seq<char>) -> Option<int>
    decreases s.len(),
{
    if p.len() > s.len() {
        None
    } else if s.subrange(s.len() - p.len(), s.len() as int) == p {
        Some(s.len() - p.len())
    } else if s.len() == 0 {
        None
    } else {
        spec_rfind_sub(s.drop_last(), p)
    }
}

pub proof fn lemma_rfind_sub(s: Seq<char>, p: Seq<char>)
    ensures
        match spec_rfind_sub(s, p) {
            Some(i) => occurs_at(s, p, i) && (forall|j: int|
                i < j ==> !occurs_at(s, p, j)),
            None => forall|j: int| !occurs_at(s, p, j),
        },
    decreases s.len(),
{
    if p.len() > s.len() {
    } else if s.subrange(s.len() - p.len(), s.len() as int) == p {
        assert forall|j: int| s.len() - p.len() < j implies !occurs_at(s, p, j) by {}
    } else if s.len() > 0 {
        lemma_rfind_sub(s.drop_last(), p);
        let t = s.drop_last();
        assert forall|j: int| occurs_at(s, p, j) && j + p.len() < s.len() implies occurs_at(
            t,
            p,
            j,
        ) by {
            assert(t.subrange(j, j + p.len()) == s.subrange(j, j + p.len()));
        }
        assert forall|j: int| occurs_at(t, p, j) implies occurs_at(s, p, j) by {
            assert(s.subrange(j, j + p.len()) == t.subrange(j, j + p.len()));
        }
        assert(!occurs_at(s, p, s.len() - p.len()));
    }
}

/// Last occurrence of `p` in `s`, pinned to `spec_rfind_sub`.
pub fn rfind_sub(s: &str, p: &str) -> (r: Option<usize>)
    requires
        p@.len() > 0,
    ensures
        match r {
            Some(i) => spec_rfind_sub(s@, p@) == Some(i as int),
            None => spec_rfind_sub(s@, p@) is None,
        },
{
    let slen = s.unicode_len();
    let plen = p.unicode_len();
    if plen > slen {
        proof {
            lemma_rfind_sub(s@, p@);
            match spec_rfind_sub(s@, p@) {
                Some(k) => {
                    assert(occurs_at(s@, p@, k));
                },
                None => {},
            }
        }
        return None;
    }
    let mut i: usize = slen - plen;
    loop
        invariant
            i <= slen - plen,
            slen == s@.len(),
            plen == p@.len(),
            plen <= slen,
            forall|j: int| i < j ==> !occurs_at(s@, p@, j),
        decreases i + 1,
    {
        if starts_with_at(s, i, p) {
            proof {
                lemma_rfind_sub(s@, p@);
                match spec_rfind_sub(s@, p@) {
                    Some(k) => {
                        if k < i {
                            assert(!occurs_at(s@, p@, i as int));
                        }
                        if k > i {
                            assert(!occurs_at(s@, p@, k));
                        }
                    },
                    None => {
                        assert(!occurs_at(s@, p@, i as int));
                    },
                }
            }
            return Some(i);
        }
        if i == 0 {
            proof {
                lemma_rfind_sub(s@, p@);
                assert forall|j: int| !occurs_at(s@, p@, j) by {
                    if occurs_at(s@, p@, j) {
                        assert(0 <= j && j + p@.len() <= s@.len());
                    }
                }
            }
            return None;
        }
        i = i - 1;
    }
}

/// The file name of a path: the text after its last separator.
pub open spec fn spec_file_part(p: Seq<char>) -> Seq<char> {
    match spec_rfind_sub(p, "/"@) {
        Some(k) => p.skip(k + 1),
        None => p,
    }
}

/// The directory of a path: the text before its last separator, when one
/// occurs.
pub open spec fn spec_dir_part(p: Seq<char>) -> Option<Seq<char>> {
    match spec_rfind_sub(p, "/"@) {
        Some(k) => Some(p.take(k)),
        None => None,
    }
}

/// The stem of a file name: the text before its last dot, unless the dot
/// leads.
pub open spec fn spec_stem(f: Seq<char>) -> Seq<char> {
    match spec_rfind_sub(f, "."@) {
        Some(k) => if k >= 1 {
            f.take(k)
        } else {
            f
        },
        None => f,
    }
}

fn file_part(p: &str) -> (r: (String, Option<String>))
    ensures
        r.0@ == spec_file_part(p@),
        match spec_dir_part(p@) {
            Some(d) => r.1 matches Some(rd) && rd@ == d,
            None => r.1 is None,
        },
{
    let plen = p.unicode_len();
    proof {
        reveal_strlit("/");
    }
    match rfind_sub(p, "/") {
        Some(k) => {
            proof {
                lemma_rfind_sub(p@, "/"@);
            }
            (p.substring_char(k + 1, plen).to_owned(), Some(p.substring_char(0, k).to_owned()))
        },
        None => (p.to_owned(), None),
    }
}

fn stem_of(f: &str) -> (r: String)
    ensures
        r@ == spec_stem(f@),
{
    let flen = f.unicode_len();
    proof {
        reveal_strlit(".");
    }
    match rfind_sub(f, ".") {
        Some(k) => {
            proof {
                lemma_rfind_sub(f@, "."@);
            }
            if k >= 1 {
                f.substring_char(0, k).to_owned()
            } else {
                f.to_owned()
            }
        },
        None => f.to_owned(),
    }
}

/// The document identifier of an input path: the file name without its
/// extension, except that a file named by the index convention uses its
/// parent directory's name instead; `None` when that parent is missing.
pub open spec fn spec_slug_of_path(p: Seq<char>) -> Option<Seq<char>> {
    let stem = spec_stem(spec_file_part(p));
    if stem == "index"@ {
        match spec_dir_part(p) {
            Some(d) => Some(spec_file_part(d)),
            None => None,
        }
    } else {
        Some(stem)
    }
}

/// Derives the document identifier from an input file path.
pub fn slug_from_input_file_path(path: &str) -> (r: Option<String>)
    ensures
        match spec_slug_of_path(path@) {
            Some(v) => r matches Some(s) && s@ == v,
            None => r is None,
        },
{
    let (file, dir) = file_part(path);
    let stem = stem_of(file.as_str());
    if eq_str(stem.as_str(), "index") {
        match dir {
            Some(d) => {
                let (parent_name, up) = file_part(d.as_str());
                Some(parent_name)
            },
            None => None,
        }
    } else {
        Some(stem)
    }
}

/// The directory to watch, read from a relative input path: the text
/// before its first relative-part marker; `None` without a marker.
pub fn watch_directory_from_relative_input_path(input_path: &str) -> (r: Option<String>)
    ensures
        match spec_find_sub(input_path@, "/./"@) {
            Some(k) => r matches Some(v) && v@ == input_path@.take(k),
            None => r is None,
        },
{
    proof {
        reveal_strlit("/./");
    }
    match find_sub(input_path, "/./") {
        None => None,
        Some(k) => {
            proof {
                lemma_find_sub(input_path@, "/./"@);
            }
            Some(input_path.substring_char(0, k).to_owned())
        },
    }
}

/// The absolute output path of a relative input: the relative part after
/// the last marker keeps its directories under the output root, and the
/// file keeps its stem under the generated extension.
pub open spec fn spec_output_path(root: Seq<char>, rel: Seq<char>) -> Option<Seq<char>> {
    match spec_rfind_sub(rel, "/./"@) {
        None => None,
        Some(k) => {
            let tail = rel.skip(k + "/./"@.len());
            let stem = spec_stem(spec_file_part(tail));
            match spec_dir_part(tail) {
                Some(parent) => Some(root + "/"@ + parent + "/"@ + stem + ".astro"@),
                None => Some(root + "/"@ + stem + ".astro"@),
            }
        },
    }
}

/// Derives the output path from the output root and a marked relative
/// input path; `None` when the input carries no relative-part marker.
pub fn output_path_from_relative_input(
    output_root_directory: &str,
    relative_input_path: &str,
) -> (r: Option<String>)
    ensures
        match spec_output_path(output_root_directory@, relative_input_path@) {
            Some(v) => r matches Some(s) && s@ == v,
            None => r is None,
        },
{
    proof {
        reveal_strlit("/./");
    }
    let rlen = relative_input_path.unicode_len();
    match rfind_sub(relative_input_path, "/./") {
        None => None,
        Some(k) => {
            proof {
                lemma_rfind_sub(relative_input_path@, "/./"@);
            }
            let tail = relative_input_path.substring_char(k + 3, rlen);
            let (file, dir) = file_part(tail);
            let stem = stem_of(file.as_str());
            let mut out = output_root_directory.to_owned();
            out.append("/");
            match dir {
                Some(parent) => {
                    out.append(parent.as_str());
                    out.append("/");
                },
                None => {},
            }
            out.append(stem.as_str());
            out.append(".astro");
            Some(out)
        },
    }
}

} // verus!
