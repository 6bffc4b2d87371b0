//! Path computations of the native-toolchain discovery helpers. The
//! checks of what actually exists on disk belong to the caller; here a
//! path is its ordered components.

use vstd::prelude::*;
use vstd::string::{StrSliceExecFns, StringExecFns};

verus! {

/// Path strings joined into one environment value: the parts in order,
/// a `;` between each two.
pub open spec fn joined_with_semicolons(parts: Seq<Seq<char>>) -> Seq<char>
    decreases parts.len(),
{
    if parts.len() == 0 {
        Seq::empty()
    } else if parts.len() == 1 {
        parts[0]
    } else {
        joined_with_semicolons(parts.drop_last()) + ";"@ + parts.last()
    }
}

/// Joins path strings into one `;`-separated value, the shape the `LIB`
/// environment variable wants.
pub fn join_with_semicolons(parts: &Vec<String>) -> (r: String)
    ensures
        r@ == joined_with_semicolons(parts@.map_values(|s: String| s@)),
{
    let ghost all = parts@.map_values(|s: String| s@);
    let mut r = String::new();
    let mut i: usize = 0;
    let n = parts.len();
    proof {
        assert(all.take(0) =~= Seq::<Seq<char>>::empty());
    }
    while i < n
        invariant
            i <= n,
            n == parts@.len(),
            all == parts@.map_values(|s: String| s@),
            r@ == joined_with_semicolons(all.take(i as int)),
        decreases n - i,
    {
        if i > 0 {
            r.append(";");
        }
        r.append(parts[i].as_str());
        proof {
            if i == 0 {
                assert(r@ =~= all[0]);
            } else {
                assert(all.take(i as int + 1).drop_last() =~= all.take(i as int));
                assert(all.take(i as int + 1).last() == all[i as int]);
            }
        }
        i = i + 1;
    }
    proof {
        assert(all.take(n as int) =~= all);
    }
    r
}

/// Strict lexicographic order on character sequences, by code point: the
/// order in which version directory names sort.
pub open spec fn lex_lt(a: Seq<char>, b: Seq<char>) -> bool
    decreases a.len(),
{
    if b.len() == 0 {
        false
    } else if a.len() == 0 {
        true
    } else if (a[0] as u32) < (b[0] as u32) {
        true
    } else if (a[0] as u32) > (b[0] as u32) {
        false
    } else {
        lex_lt(a.skip(1), b.skip(1))
    }
}

proof fn lemma_lex_lt_irreflexive(a: Seq<char>)
    ensures
        !lex_lt(a, a),
    decreases a.len(),
{
    if a.len() > 0 {
        lemma_lex_lt_irreflexive(a.skip(1));
    }
}

proof fn lemma_lex_lt_transitive(a: Seq<char>, b: Seq<char>, c: Seq<char>)
    requires
        lex_lt(a, b),
        lex_lt(b, c),
    ensures
        lex_lt(a, c),
    decreases a.len(),
{
    if a.len() > 0 {
        if (a[0] as u32) == (b[0] as u32) && (b[0] as u32) == (c[0] as u32) {
            lemma_lex_lt_transitive(a.skip(1), b.skip(1), c.skip(1));
        }
    }
}

/// Compares two strings in the order their version names sort by,
/// character by character.
pub fn str_lex_lt(a: &String, b: &String) -> (r: bool)
    ensures
        r == lex_lt(a@, b@),
{
    let a_s = a.as_str();
    let b_s = b.as_str();
    let an = a_s.unicode_len();
    let bn = b_s.unicode_len();
    let mut i: usize = 0;
    proof {
        assert(a@.skip(0) =~= a@);
        assert(b@.skip(0) =~= b@);
    }
    while i < an && i < bn
        invariant
            i <= an,
            i <= bn,
            an == a@.len(),
            bn == b@.len(),
            a_s@ == a@,
            b_s@ == b@,
            lex_lt(a@, b@) == lex_lt(a@.skip(i as int), b@.skip(i as int)),
        decreases an - i,
    {
        let ca = a_s.get_char(i);
        let cb = b_s.get_char(i);
        if (ca as u32) < (cb as u32) {
            return true;
        }
        if (ca as u32) > (cb as u32) {
            return false;
        }
        proof {
            assert(a@.skip(i as int).skip(1) =~= a@.skip(i as int + 1));
            assert(b@.skip(i as int).skip(1) =~= b@.skip(i as int + 1));
        }
        i = i + 1;
    }
    proof {
        if i < bn {
            assert(a@.skip(i as int).len() == 0);
        } else {
            assert(b@.skip(i as int).len() == 0);
        }
    }
    i < bn
}

/// Whether a directory name names a Windows SDK version: it opens with
/// `10.`.
pub open spec fn is_sdk_version_name(s: Seq<char>) -> bool {
    &&& s.len() >= 3
    &&& s[0] == '1'
    &&& s[1] == '0'
    &&& s[2] == '.'
}

fn is_sdk_version_prefix(name: &String) -> (r: bool)
    ensures
        r == is_sdk_version_name(name@),
{
    let s = name.as_str();
    if s.unicode_len() < 3 {
        return false;
    }
    s.get_char(0) == '1' && s.get_char(1) == '0' && s.get_char(2) == '.'
}

/// Picks the newest installed SDK among directory names: the greatest
/// name, in version-name order, among those opening with `10.`; `None`
/// exactly when no name qualifies.
#[verifier::loop_isolation(false)]
pub fn latest_sdk_version(names: &Vec<String>) -> (r: Option<String>)
    ensures
        r is None <==> (forall|j: int|
            0 <= j < names@.len() ==> !is_sdk_version_name(names@[j]@)),
        r matches Some(m) ==> {
            &&& exists|j: int|
                0 <= j < names@.len() && is_sdk_version_name(names@[j]@) && m@ == names@[j]@
            &&& forall|j: int|
                0 <= j < names@.len() && is_sdk_version_name(names@[j]@) ==> !lex_lt(
                    m@,
                    names@[j]@,
                )
        },
{
    let mut best: Option<String> = None;
    let mut i: usize = 0;
    while i < names.len()
        invariant
            i <= names@.len(),
            best is None <==> (forall|j: int| 0 <= j < i ==> !is_sdk_version_name(names@[j]@)),
            best matches Some(m) ==> {
                &&& exists|j: int|
                    0 <= j < i && is_sdk_version_name(names@[j]@) && m@ == names@[j]@
                &&& forall|j: int|
                    0 <= j < i && is_sdk_version_name(names@[j]@) ==> !lex_lt(m@, names@[j]@)
            },
        decreases names@.len() - i,
    {
        let name = &names[i];
        if is_sdk_version_prefix(name) {
            match &best {
                None => {
                    proof {
                        lemma_lex_lt_irreflexive(name@);
                    }
                    best = Some(name.clone());
                },
                Some(b) => {
                    if str_lex_lt(b, name) {
                        proof {
                            lemma_lex_lt_irreflexive(name@);
                            assert forall|j: int|
                                0 <= j < i && is_sdk_version_name(names@[j]@) implies !lex_lt(
                                name@,
                                names@[j]@,
                            ) by {
                                if lex_lt(name@, names@[j]@) {
                                    lemma_lex_lt_transitive(b@, name@, names@[j]@);
                                }
                            }
                        }
                        best = Some(name.clone());
                    }
                },
            }
        }
        i = i + 1;
    }
    best
}

/// From a toolchain binary directory laid out as
/// `.../<version>/bin/<host>/<target>`, the matching library directory
/// `.../<version>/lib/<arch>`: the last three components give way to
/// `lib` and the wanted architecture. A path too short to climb three
/// levels has no library directory.
pub fn find_msvc_lib_path(toolchain_path: &Vec<String>, lib_arch: &String) -> (r: Option<
    Vec<String>,
>)
    ensures
        toolchain_path@.len() < 3 ==> r is None,
        toolchain_path@.len() >= 3 ==> (r matches Some(p) && p@.map_values(|s: String| s@)
            == toolchain_path@.map_values(|s: String| s@).take(
            toolchain_path@.len() - 3,
        ).push("lib"@).push(lib_arch@)),
{
    if toolchain_path.len() < 3 {
        return None;
    }
    let end = toolchain_path.len() - 3;
    let mut out: Vec<String> = Vec::new();
    let mut i: usize = 0;
    while i < end
        invariant
            i <= end,
            end <= toolchain_path@.len(),
            out@.map_values(|s: String| s@) == toolchain_path@.map_values(|s: String| s@).take(
                i as int,
            ),
        decreases end - i,
    {
        let ghost out_pre = out@;
        out.push(toolchain_path[i].clone());
        proof {
            assert(out@.map_values(|s: String| s@) =~= out_pre.map_values(|s: String| s@).push(
                toolchain_path@[i as int]@,
            ));
            assert(toolchain_path@.map_values(|s: String| s@).take(i as int + 1)
                =~= toolchain_path@.map_values(|s: String| s@).take(i as int).push(
                toolchain_path@[i as int]@,
            ));
        }
        i = i + 1;
    }
    let ghost out_pre = out@;
    out.push("lib".to_owned());
    proof {
        assert(out@.map_values(|s: String| s@) =~= out_pre.map_values(|s: String| s@).push("lib"@));
    }
    let ghost out_mid = out@;
    out.push(lib_arch.clone());
    proof {
        assert(out@.map_values(|s: String| s@) =~= out_mid.map_values(|s: String| s@).push(
            lib_arch@,
        ));
    }
    Some(out)
}

/// The toolchain binary directory for one version and one architecture
/// pair: `<vc>/Tools/MSVC/<version>/bin/<host>/<target>`.
pub open spec fn msvc_tool_path(
    vc_path: Seq<Seq<char>>,
    version: Seq<char>,
    host: Seq<char>,
    target: Seq<char>,
) -> Seq<Seq<char>> {
    vc_path + seq!["Tools"@, "MSVC"@, version, "bin"@, host, target]
}

fn msvc_tool_path_for(
    vc_path: &Vec<String>,
    version: &String,
    host: &str,
    target: &str,
) -> (r: Vec<String>)
    ensures
        r@.map_values(|s: String| s@) == msvc_tool_path(
            vc_path@.map_values(|s: String| s@),
            version@,
            host@,
            target@,
        ),
{
    let mut out: Vec<String> = Vec::new();
    let mut i: usize = 0;
    let n = vc_path.len();
    while i < n
        invariant
            i <= n,
            n == vc_path@.len(),
            out@.map_values(|s: String| s@) == vc_path@.map_values(|s: String| s@).take(i as int),
        decreases n - i,
    {
        let ghost out_pre = out@;
        out.push(vc_path[i].clone());
        proof {
            assert(out@.map_values(|s: String| s@) =~= out_pre.map_values(|s: String| s@).push(
                vc_path@[i as int]@,
            ));
            assert(vc_path@.map_values(|s: String| s@).take(i as int + 1) =~= vc_path@.map_values(
                |s: String| s@,
            ).take(i as int).push(vc_path@[i as int]@));
        }
        i = i + 1;
    }
    let ghost a0 = out@;
    out.push("Tools".to_owned());
    proof {
        assert(out@.map_values(|s: String| s@) =~= a0.map_values(|s: String| s@).push("Tools"@));
    }
    let ghost a1 = out@;
    out.push("MSVC".to_owned());
    proof {
        assert(out@.map_values(|s: String| s@) =~= a1.map_values(|s: String| s@).push("MSVC"@));
    }
    let ghost a2 = out@;
    out.push(version.clone());
    proof {
        assert(out@.map_values(|s: String| s@) =~= a2.map_values(|s: String| s@).push(version@));
    }
    let ghost a3 = out@;
    out.push("bin".to_owned());
    proof {
        assert(out@.map_values(|s: String| s@) =~= a3.map_values(|s: String| s@).push("bin"@));
    }
    let ghost a4 = out@;
    out.push(host.to_owned());
    proof {
        assert(out@.map_values(|s: String| s@) =~= a4.map_values(|s: String| s@).push(host@));
    }
    let ghost a5 = out@;
    out.push(target.to_owned());
    proof {
        assert(out@.map_values(|s: String| s@) =~= a5.map_values(|s: String| s@).push(target@));
        assert(out@.map_values(|s: String| s@) =~= vc_path@.map_values(|s: String| s@) + seq![
            "Tools"@,
            "MSVC"@,
            version@,
            "bin"@,
            host@,
            target@,
        ]);
    }
    out
}

/// All nine candidate toolchain binary directories for one version, in
/// the order they are probed: the host architectures x64, x86, arm64,
/// and under each the target architectures in that same order.
pub fn msvc_tool_path_candidates(vc_path: &Vec<String>, version: &String) -> (r: Vec<Vec<String>>)
    ensures
        r@.len() == 9,
        ({
            let vc = vc_path@.map_values(|s: String| s@);
            &&& r@[0]@.map_values(|s: String| s@) == msvc_tool_path(vc, version@, "Hostx64"@, "x64"@)
            &&& r@[1]@.map_values(|s: String| s@) == msvc_tool_path(vc, version@, "Hostx64"@, "x86"@)
            &&& r@[2]@.map_values(|s: String| s@) == msvc_tool_path(
                vc,
                version@,
                "Hostx64"@,
                "arm64"@,
            )
            &&& r@[3]@.map_values(|s: String| s@) == msvc_tool_path(vc, version@, "Hostx86"@, "x64"@)
            &&& r@[4]@.map_values(|s: String| s@) == msvc_tool_path(vc, version@, "Hostx86"@, "x86"@)
            &&& r@[5]@.map_values(|s: String| s@) == msvc_tool_path(
                vc,
                version@,
                "Hostx86"@,
                "arm64"@,
            )
            &&& r@[6]@.map_values(|s: String| s@) == msvc_tool_path(
                vc,
                version@,
                "Hostarm64"@,
                "x64"@,
            )
            &&& r@[7]@.map_values(|s: String| s@) == msvc_tool_path(
                vc,
                version@,
                "Hostarm64"@,
                "x86"@,
            )
            &&& r@[8]@.map_values(|s: String| s@) == msvc_tool_path(
                vc,
                version@,
                "Hostarm64"@,
                "arm64"@,
            )
        }),
{
    let mut r: Vec<Vec<String>> = Vec::new();
    r.push(msvc_tool_path_for(vc_path, version, "Hostx64", "x64"));
    r.push(msvc_tool_path_for(vc_path, version, "Hostx64", "x86"));
    r.push(msvc_tool_path_for(vc_path, version, "Hostx64", "arm64"));
    r.push(msvc_tool_path_for(vc_path, version, "Hostx86", "x64"));
    r.push(msvc_tool_path_for(vc_path, version, "Hostx86", "x86"));
    r.push(msvc_tool_path_for(vc_path, version, "Hostx86", "arm64"));
    r.push(msvc_tool_path_for(vc_path, version, "Hostarm64", "x64"));
    r.push(msvc_tool_path_for(vc_path, version, "Hostarm64", "x86"));
    r.push(msvc_tool_path_for(vc_path, version, "Hostarm64", "arm64"));
    r
}

/// The library architecture directory that matches a build-target
/// architecture name.
pub open spec fn lib_arch_spec(target_arch: Seq<char>) -> Seq<char> {
    if target_arch == "x86_64"@ {
        "x64"@
    } else if target_arch == "x86"@ {
        "x86"@
    } else if target_arch == "aarch64"@ {
        "arm64"@
    } else {
        "x64"@
    }
}

/// Maps a build-target architecture name to the library directory name
/// the toolchain uses for it, falling back to `x64` for anything
/// unknown.
pub fn lib_arch_for(target_arch: &String) -> (r: String)
    ensures
        r@ == lib_arch_spec(target_arch@),
{
    if target_arch.eq(&"x86_64".to_owned()) {
        "x64".to_owned()
    } else if target_arch.eq(&"x86".to_owned()) {
        "x86".to_owned()
    } else if target_arch.eq(&"aarch64".to_owned()) {
        "arm64".to_owned()
    } else {
        "x64".to_owned()
    }
}

} // verus!
