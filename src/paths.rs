use vstd::prelude::*;
use vstd::string::*;

verus! {

/// A path as the sequence of its components' texts.
pub open spec fn comps(p: Seq<String>) -> Seq<Seq<char>> {
    p.map_values(|s: String| s@)
}

/// The position of the dot that starts the extension among the first `k`
/// characters of a file name, or 0 where there is none. A dot in front is
/// part of the stem.
pub open spec fn last_dot(n: Seq<char>, k: int) -> int
    decreases k,
{
    if k <= 1 {
        0
    } else if n[k - 1] == '.' {
        k - 1
    } else {
        last_dot(n, k - 1)
    }
}

/// The file name with its extension, if any, replaced by `ext`.
pub open spec fn with_extension(n: Seq<char>, ext: Seq<char>) -> Seq<char> {
    let d = last_dot(n, n.len() as int);
    let stem = if d == 0 {
        n
    } else {
        n.subrange(0, d)
    };
    stem + "."@ + ext
}

/// Where a module's binding file goes: the module path below the base
/// directory, under the output root, with the extension replaced by `rs`.
/// `None` where the module does not lie strictly below the base directory.
pub open spec fn output_path_of(module: Seq<Seq<char>>, base: Seq<Seq<char>>, out: Seq<Seq<char>>) -> Option<
    Seq<Seq<char>>,
> {
    if base.len() < module.len() && module.subrange(0, base.len() as int) == base {
        let rest = module.subrange(base.len() as int, module.len() as int);
        Some(out + rest.drop_last().push(with_extension(rest.last(), "rs"@)))
    } else {
        None
    }
}

/// Replaces the extension of a file name.
pub fn replace_extension(name: &String, ext: &str) -> (r: String)
    ensures
        r@ == with_extension(name@, ext@),
{
    let len = name.as_str().unicode_len();
    let mut k: usize = len;
    while k > 1 && name.as_str().get_char(k - 1) != '.'
        invariant
            k <= len,
            len == name@.len(),
            last_dot(name@, k as int) == last_dot(name@, len as int),
        decreases k,
    {
        k = k - 1;
    }
    let stem_end: usize = if k <= 1 {
        len
    } else {
        k - 1
    };
    let mut r = String::from_str(name.as_str().substring_char(0, stem_end));
    proof {
        if k <= 1 {
            assert(name@.subrange(0, len as int) =~= name@);
        }
    }
    r.append(".");
    r.append(ext);
    r
}

/// Strips `base` off the front of `module`, or `None` where it is no prefix.
pub fn strip_prefix(module: &Vec<String>, base: &Vec<String>) -> (r: Option<Vec<String>>)
    ensures
        match r {
            Some(rest) => base@.len() <= module@.len() && comps(module@).subrange(
                0,
                base@.len() as int,
            ) == comps(base@) && comps(rest@) == comps(module@).subrange(
                base@.len() as int,
                module@.len() as int,
            ),
            None => !(base@.len() <= module@.len() && comps(module@).subrange(
                0,
                base@.len() as int,
            ) == comps(base@)),
        },
{
    if base.len() > module.len() {
        return None;
    }
    let mut i: usize = 0;
    while i < base.len()
        invariant
            i <= base@.len() <= module@.len(),
            forall|j: int| 0 <= j < i ==> module@[j]@ == base@[j]@,
        decreases base@.len() - i,
    {
        if module[i] != base[i] {
            assert(comps(module@).subrange(0, base@.len() as int)[i as int] != comps(base@)[i as int]);
            return None;
        }
        i = i + 1;
    }
    assert(comps(module@).subrange(0, base@.len() as int) =~= comps(base@));
    let mut rest: Vec<String> = Vec::new();
    let mut j: usize = base.len();
    while j < module.len()
        invariant
            base@.len() <= j <= module@.len(),
            comps(rest@) =~= comps(module@).subrange(base@.len() as int, j as int),
        decreases module@.len() - j,
    {
        let ghost before = rest@;
        rest.push(module[j].clone());
        assert(rest@ == before.push(module@[j as int]));
        assert(comps(rest@) =~= comps(before).push(module@[j as int]@));
        j = j + 1;
    }
    Some(rest)
}

/// The output file of a module: `module` below `base_dir`, rejoined under
/// `out_root`, with the extension replaced by `rs`. `None` where the module
/// does not lie strictly below `base_dir`.
pub fn output_path(module: &Vec<String>, base_dir: &Vec<String>, out_root: &Vec<String>) -> (r:
    Option<Vec<String>>)
    ensures
        match r {
            Some(p) => output_path_of(comps(module@), comps(base_dir@), comps(out_root@)) == Some(
                comps(p@),
            ),
            None => output_path_of(comps(module@), comps(base_dir@), comps(out_root@)) is None,
        },
{
    match strip_prefix(module, base_dir) {
        None => None,
        Some(rest) => {
            if rest.len() == 0 {
                return None;
            }
            let mut p: Vec<String> = Vec::new();
            let mut i: usize = 0;
            while i < out_root.len()
                invariant
                    i <= out_root@.len(),
                    comps(p@) =~= comps(out_root@).subrange(0, i as int),
                decreases out_root@.len() - i,
            {
                let ghost before = p@;
                p.push(out_root[i].clone());
                assert(comps(p@) =~= comps(before).push(out_root@[i as int]@));
                i = i + 1;
            }
            let last = rest.len() - 1;
            let mut j: usize = 0;
            while j < last
                invariant
                    j <= last < rest@.len(),
                    comps(p@) =~= comps(out_root@) + comps(rest@).subrange(0, j as int),
                decreases last - j,
            {
                let ghost before = p@;
                p.push(rest[j].clone());
                assert(comps(p@) =~= comps(before).push(rest@[j as int]@));
                j = j + 1;
            }
            let name = replace_extension(&rest[last], "rs");
            let ghost before = p@;
            p.push(name);
            assert(comps(p@) =~= comps(before).push(name@));
            assert(comps(rest@).drop_last() =~= comps(rest@).subrange(0, last as int));
            assert(comps(p@) =~= comps(out_root@) + comps(rest@).drop_last().push(
                with_extension(comps(rest@).last(), "rs"@),
            ));
            Some(p)
        },
    }
}

} // verus!
