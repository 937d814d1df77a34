//! Path and batch utilities for the command-line workflows: output-file
//! naming and selection of the documents a batch run processes. Paths are
//! treated textually, with '/' as the separator.

use vstd::prelude::*;
use crate::encoding::str_chars;
use crate::encoding::string_from_chars;

verus! {

/// Index of the last occurrence of `c` in `s`, or -1 when there is none.
pub open spec fn spec_last_index_of(s: Seq<char>, c: char) -> int
    decreases s.len(),
{
    if s.len() == 0 {
        -1
    } else if s.last() == c {
        s.len() - 1
    } else {
        spec_last_index_of(s.drop_last(), c)
    }
}

proof fn lemma_last_index_of(s: Seq<char>, c: char)
    ensures
        ({
            let r = spec_last_index_of(s, c);
            &&& -1 <= r < s.len()
            &&& r >= 0 ==> s[r] == c
            &&& forall |j: int| r < j < s.len() ==> s[j] != c
        }),
    decreases s.len(),
{
    if s.len() > 0 && s.last() != c {
        lemma_last_index_of(s.drop_last(), c);
        assert(forall |j: int| 0 <= j < s.len() - 1 ==> s[j] == s.drop_last()[j]);
    }
}

/// Finds the index of the last occurrence of `c` in `v`, scanning backward.
fn last_index_of(v: &Vec<char>, c: char) -> (r: Option<usize>)
    ensures
        r matches Some(i) ==> i < v@.len() && spec_last_index_of(v@, c) == i,
        r is None ==> spec_last_index_of(v@, c) == -1,
{
    let mut i: usize = v.len();
    while i > 0
        invariant
            i <= v@.len(),
            forall |j: int| i <= j < v@.len() ==> v@[j] != c,
        decreases i,
    {
        i = i - 1;
        if v[i] == c {
            proof {
                lemma_last_index_of(v@, c);
            }
            return Some(i);
        }
    }
    proof {
        lemma_last_index_of(v@, c);
    }
    None
}

/// Copies `v[from..to]` into a fresh vector.
fn sub_vec(v: &Vec<char>, from: usize, to: usize) -> (r: Vec<char>)
    requires
        from <= to <= v@.len(),
    ensures
        r@ == v@.subrange(from as int, to as int),
{
    let mut r: Vec<char> = Vec::new();
    let mut i: usize = from;
    while i < to
        invariant
            from <= i <= to <= v@.len(),
            r@ == v@.subrange(from as int, i as int),
        decreases to - i,
    {
        r.push(v[i]);
        proof {
            assert(v@.subrange(from as int, i as int).push(v@[i as int])
                =~= v@.subrange(from as int, i + 1));
        }
        i = i + 1;
    }
    r
}

/// Appends every character of `v` to `out`.
fn push_all(out: &mut Vec<char>, v: &Vec<char>)
    ensures
        final(out)@ == old(out)@ + v@,
{
    let mut i: usize = 0;
    while i < v.len()
        invariant
            i <= v@.len(),
            out@ == old(out)@ + v@.subrange(0, i as int),
        decreases v@.len() - i,
    {
        out.push(v[i]);
        proof {
            assert((old(out)@ + v@.subrange(0, i as int)).push(v@[i as int])
                =~= old(out)@ + v@.subrange(0, i + 1));
        }
        i = i + 1;
    }
    proof {
        assert(v@.subrange(0, v@.len() as int) =~= v@);
    }
}

/// The portion of a path after its last '/': the file name.
pub open spec fn spec_file_name(p: Seq<char>) -> Seq<char> {
    let sl = spec_last_index_of(p, '/');
    if sl >= 0 {
        p.subrange(sl + 1, p.len() as int)
    } else {
        p
    }
}

/// The portion of a path up to and including its last '/', empty when there
/// is none: the parent prefix.
pub open spec fn spec_parent_prefix(p: Seq<char>) -> Seq<char> {
    let sl = spec_last_index_of(p, '/');
    if sl >= 0 {
        p.subrange(0, sl + 1)
    } else {
        Seq::empty()
    }
}

/// The file name without its extension: the portion before the last '.',
/// unless that dot starts the name, in which case the whole name.
pub open spec fn spec_stem(name: Seq<char>) -> Seq<char> {
    let d = spec_last_index_of(name, '.');
    if d > 0 {
        name.subrange(0, d)
    } else {
        name
    }
}

/// The extension of a file name: what follows the last '.' when the stem
/// does not cover the whole name, empty otherwise.
pub open spec fn spec_extension(name: Seq<char>) -> Seq<char> {
    let d = spec_last_index_of(name, '.');
    if d > 0 {
        name.subrange(d + 1, name.len() as int)
    } else {
        Seq::empty()
    }
}

/// The output path for an input path: the same parent prefix, the input's
/// stem, then a dot, the suffix, a dot and the new extension.
pub open spec fn spec_output_path(p: Seq<char>, suffix: Seq<char>, new_ext: Seq<char>) -> Seq<char> {
    spec_parent_prefix(p) + spec_stem(spec_file_name(p)) + seq!['.'] + suffix + seq!['.']
        + new_ext
}

/// Generates the output path for an input path, a suffix and a new
/// extension: the parent is kept, the file's stem is kept, and
/// `.suffix.new_ext` is appended.
pub fn get_output_path(input_path: &str, suffix: &str, new_ext: &str) -> (r: String)
    ensures
        r@ == spec_output_path(input_path@, suffix@, new_ext@),
{
    let p = str_chars(input_path);
    let plen: usize = p.len();
    let name_start: usize = match last_index_of(&p, '/') {
        Some(i) => i + 1,
        None => 0,
    };
    let name = sub_vec(&p, name_start, plen);
    proof {
        assert(name@ =~= spec_file_name(p@));
    }
    let dot = last_index_of(&name, '.');
    let stem_end: usize = match dot {
        Some(d) => if d > 0 {
            d
        } else {
            name.len()
        },
        None => name.len(),
    };
    let mut out = sub_vec(&p, 0, name_start);
    proof {
        assert(out@ =~= spec_parent_prefix(p@));
    }
    let stem = sub_vec(&name, 0, stem_end);
    proof {
        assert(stem@ =~= spec_stem(name@));
    }
    push_all(&mut out, &stem);
    out.push('.');
    let sfx = str_chars(suffix);
    push_all(&mut out, &sfx);
    out.push('.');
    let ext = str_chars(new_ext);
    push_all(&mut out, &ext);
    proof {
        assert(out@ =~= spec_output_path(input_path@, suffix@, new_ext@));
    }
    string_from_chars(&out)
}

/// The characters of the extension every document in a batch carries.
pub open spec fn yaml_chars() -> Seq<char> {
    seq!['y', 'a', 'm', 'l']
}

/// Whether the characters in `v` spell that extension.
fn is_yaml_chars(v: &Vec<char>) -> (r: bool)
    ensures
        r == (v@ == yaml_chars()),
{
    if v.len() != 4 {
        proof {
            assert(yaml_chars().len() == 4);
        }
        return false;
    }
    let r = v[0] == 'y' && v[1] == 'a' && v[2] == 'm' && v[3] == 'l';
    proof {
        if r {
            assert(v@ =~= yaml_chars());
        } else {
            assert(v@ != yaml_chars());
        }
    }
    r
}

/// Whether a file name carries the batch documents' extension.
pub open spec fn spec_has_yaml_ext(name: Seq<char>) -> bool {
    spec_extension(name) == yaml_chars() && spec_last_index_of(name, '.') > 0
}

/// Whether the file name's extension is the one batch runs process.
pub fn has_yaml_ext(name: &str) -> (r: bool)
    ensures
        r == spec_has_yaml_ext(name@),
{
    let v = str_chars(name);
    let vlen: usize = v.len();
    match last_index_of(&v, '.') {
        Some(d) => {
            if d > 0 {
                let ext = sub_vec(&v, d + 1, vlen);
                proof {
                    assert(ext@ =~= spec_extension(v@));
                }
                is_yaml_chars(&ext)
            } else {
                false
            }
        },
        None => false,
    }
}

/// The default output path of a single-file workflow: the input's stem, the
/// workflow's suffix, and the input's extension — except that a missing
/// extension, or the batch documents' own, stays the latter.
pub open spec fn spec_default_output_path(p: Seq<char>, suffix: Seq<char>) -> Seq<char> {
    let ext = spec_extension(spec_file_name(p));
    let out_ext = if ext.len() == 0 || ext == yaml_chars() {
        yaml_chars()
    } else {
        ext
    };
    spec_output_path(p, suffix, out_ext)
}

/// Derives the default output path for a single-file workflow from its input
/// path and the workflow's suffix.
pub fn default_output_path(input_path: &str, suffix: &str) -> (r: String)
    ensures
        r@ == spec_default_output_path(input_path@, suffix@),
{
    let p = str_chars(input_path);
    let plen: usize = p.len();
    let name_start: usize = match last_index_of(&p, '/') {
        Some(i) => i + 1,
        None => 0,
    };
    let name = sub_vec(&p, name_start, plen);
    proof {
        assert(name@ =~= spec_file_name(p@));
    }
    let dot = last_index_of(&name, '.');
    let nlen: usize = name.len();
    let mut ext: Vec<char> = Vec::new();
    match dot {
        Some(d) => {
            if d > 0 {
                let e = sub_vec(&name, d + 1, nlen);
                push_all(&mut ext, &e);
            }
        },
        None => {},
    }
    proof {
        assert(ext@ =~= spec_extension(name@));
    }
    let use_yaml = ext.len() == 0 || is_yaml_chars(&ext);
    let out_ext: String = if use_yaml {
        let mut y: Vec<char> = Vec::new();
        y.push('y');
        y.push('a');
        y.push('m');
        y.push('l');
        proof {
            assert(y@ =~= yaml_chars());
        }
        string_from_chars(&y)
    } else {
        string_from_chars(&ext)
    };
    get_output_path(input_path, suffix, out_ext.as_str())
}

/// The file names a batch run processes, chosen from a directory listing:
/// exactly those that carry the batch documents' extension, in listed order.
pub fn plan_batch(names: &Vec<String>) -> (r: Vec<String>)
    ensures
        r@.map_values(|s: String| s@)
            == names@.map_values(|s: String| s@).filter(|n: Seq<char>| spec_has_yaml_ext(n)),
{
    let ghost sv = names@.map_values(|s: String| s@);
    let ghost pred = |n: Seq<char>| spec_has_yaml_ext(n);
    let mut out: Vec<String> = Vec::new();
    let mut i: usize = 0;
    while i < names.len()
        invariant
            i <= names@.len(),
            sv == names@.map_values(|s: String| s@),
            pred == (|n: Seq<char>| spec_has_yaml_ext(n)),
            out@.map_values(|s: String| s@) == sv.subrange(0, i as int).filter(pred),
        decreases names@.len() - i,
    {
        proof {
            reveal(Seq::filter);
            assert(sv.subrange(0, i + 1).drop_last() =~= sv.subrange(0, i as int));
            assert(sv.subrange(0, i + 1).last() == sv[i as int]);
            assert(sv[i as int] == names@[i as int]@);
        }
        if has_yaml_ext(names[i].as_str()) {
            let prev = Ghost(out@);
            out.push(names[i].clone());
            proof {
                assert(out@.map_values(|s: String| s@)
                    =~= prev@.map_values(|s: String| s@).push(names@[i as int]@));
            }
        }
        i = i + 1;
    }
    proof {
        reveal(Seq::filter);
        assert(sv.subrange(0, sv.len() as int) =~= sv);
    }
    out
}

} // verus!
