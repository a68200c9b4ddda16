//! Configuring the CMake build and linking what it produced.
use vstd::prelude::*;

use crate::text::{
    chars_of, contains, find_char, has_infix, has_prefix, lemma_find_char_bounds,
    lemma_lex_le_reflexive, lemma_lex_le_total, lemma_lex_le_transitive, lex_le, lex_less_eq, prefix_of, same_chars,
    split, split_on, starts_with, string_of, suffix_from, views,
};

verus! {

broadcast use vstd::seq_lib::group_to_multiset_ensures;

/// CMake's spelling of a boolean.
pub fn cmake_bool(on: bool) -> (word: &'static str)
    ensures
        word@ == (if on { "ON"@ } else { "OFF"@ }),
{
    if on {
        "ON"
    } else {
        "OFF"
    }
}

/// The CMake configuration for a Cargo profile (`release` when unset). A
/// debug build of MLX is about ten times slower and perturbs kernel codegen,
/// so `debug` maps to `Release` unless `debug_build` (from
/// `MLX_RUST_DEBUG_BUILD`) asks for `Debug`.
pub fn cmake_profile(profile: Option<&str>, debug_build: bool) -> (config: &'static str)
    ensures
        config@ == (match profile {
            Some(p) => if p@ == "debug"@ && debug_build { "Debug"@ } else { "Release"@ },
            None => "Release"@,
        }),
{
    match profile {
        Some(p) => {
            if same_chars(&chars_of(p), &chars_of("debug")) && debug_build {
                "Debug"
            } else {
                "Release"
            }
        },
        None => "Release",
    }
}

/// `CMAKE_OSX_ARCHITECTURES` for a target: set only for macOS targets,
/// `arm64` on `aarch64` and `x86_64` otherwise.
pub fn osx_architecture(target: &str) -> (arch: Option<&'static str>)
    ensures
        has_infix(target@, "apple-darwin"@) ==> arch is Some && arch->0@ == (if has_infix(
            target@,
            "aarch64"@,
        ) {
            "arm64"@
        } else {
            "x86_64"@
        }),
        !has_infix(target@, "apple-darwin"@) ==> arch is None,
{
    let chars = chars_of(target);
    if contains(&chars, &chars_of("apple-darwin")) {
        if contains(&chars, &chars_of("aarch64")) {
            Some("arm64")
        } else {
            Some("x86_64")
        }
    } else {
        None
    }
}

/// The link name of a static library file stem: `libmlx` links as `mlx`.
pub open spec fn link_name_of(stem: Seq<char>) -> Seq<char> {
    if has_prefix(stem, "lib"@) {
        stem.skip(3)
    } else {
        stem
    }
}

/// The link name of a static library file stem.
pub fn link_name(stem: &str) -> (name: String)
    ensures
        name@ == link_name_of(stem@),
{
    let chars = chars_of(stem);
    let lib = chars_of("lib");
    proof {
        reveal_strlit("lib");
    }
    if starts_with(&chars, &lib) {
        string_of(&suffix_from(&chars, 3))
    } else {
        string_of(&chars)
    }
}

/// The views of a sequence of strings.
pub open spec fn string_views(v: Seq<String>) -> Seq<Seq<char>> {
    v.map_values(|s: String| s@)
}

/// The `(name, directory)` views of found libraries.
pub open spec fn entry_views(v: Seq<(String, String)>) -> Seq<(Seq<char>, Seq<char>)> {
    v.map_values(|e: (String, String)| (e.0@, e.1@))
}

/// Whether `entries` names each library once.
pub open spec fn names_unique(entries: Seq<(Seq<char>, Seq<char>)>) -> bool {
    forall|i: int, j: int| 0 <= i < j < entries.len() ==> entries[i].0 != entries[j].0
}

/// Whether some entry of `entries` is named `name`.
pub open spec fn names_contain(entries: Seq<(Seq<char>, Seq<char>)>, name: Seq<char>) -> bool {
    exists|i: int| 0 <= i < entries.len() && #[trigger] entries[i].0 == name
}

/// Every found library, by link name, where it was first seen: `files` gives
/// each `.a` file's stem and directory in the order the walk met them.
pub open spec fn first_seen(files: Seq<(Seq<char>, Seq<char>)>) -> Seq<(Seq<char>, Seq<char>)>
    decreases files.len(),
{
    if files.len() == 0 {
        Seq::empty()
    } else {
        let earlier = first_seen(files.drop_last());
        let name = link_name_of(files.last().0);
        if names_contain(earlier, name) {
            earlier
        } else {
            earlier.push((name, files.last().1))
        }
    }
}

fn find_name(entries: &Vec<(String, String)>, name: &String) -> (found: bool)
    ensures
        found == names_contain(entry_views(entries@), name@),
{
    let mut i: usize = 0;
    while i < entries.len()
        invariant
            i <= entries@.len(),
            forall|k: int| 0 <= k < i ==> entries@[k].0@ != name@,
        decreases entries@.len() - i,
    {
        if entries[i].0 == *name {
            assert(entry_views(entries@)[i as int].0 == name@);
            return true;
        }
        i = i + 1;
    }
    assert forall|k: int| 0 <= k < entry_views(entries@).len() implies #[trigger] entry_views(
        entries@,
    )[k].0 != name@ by {
        assert(entry_views(entries@)[k].0 == entries@[k].0@);
    }
    false
}

/// The static libraries to link, each under its link name and in the directory
/// where the walk first found it.
pub fn static_libs(files: &Vec<(String, String)>) -> (libs: Vec<(String, String)>)
    ensures
        entry_views(libs@) == first_seen(entry_views(files@)),
{
    let mut libs: Vec<(String, String)> = Vec::new();
    let mut i: usize = 0;
    assert(entry_views(files@).take(0) == Seq::<(Seq<char>, Seq<char>)>::empty());
    while i < files.len()
        invariant
            i <= files@.len(),
            entry_views(libs@) == first_seen(entry_views(files@).take(i as int)),
        decreases files@.len() - i,
    {
        assert(entry_views(files@).take(i + 1).drop_last() == entry_views(files@).take(i as int));
        let name = link_name(files[i].0.as_str());
        if !find_name(&libs, &name) {
            let directory = files[i].1.clone();
            let ghost before = libs@;
            libs.push((name, directory));
            assert(entry_views(libs@) == entry_views(before).push((name@, directory@)));
        }
        i = i + 1;
    }
    assert(entry_views(files@).take(files@.len() as int) == entry_views(files@));
    libs
}

/// Whether `s` is in non-decreasing order.
pub open spec fn sorted_names(s: Seq<Seq<char>>) -> bool {
    forall|i: int, j: int| 0 <= i < j < s.len() ==> lex_le(s[i], s[j])
}

/// Sort `names` into non-decreasing order.
pub fn sort_names(names: Vec<String>) -> (sorted: Vec<String>)
    ensures
        sorted_names(string_views(sorted@)),
        string_views(sorted@).to_multiset() == string_views(names@).to_multiset(),
{
    let mut sorted: Vec<String> = Vec::new();
    let mut i: usize = 0;
    assert(string_views(names@).take(0) == Seq::<Seq<char>>::empty());
    while i < names.len()
        invariant
            i <= names@.len(),
            sorted_names(string_views(sorted@)),
            string_views(sorted@).to_multiset() == string_views(names@).take(i as int).to_multiset(),
        decreases names@.len() - i,
    {
        let name = names[i].clone();
        let name_chars = chars_of(name.as_str());
        let mut p: usize = 0;
        while p < sorted.len() && lex_less_eq(&chars_of(sorted[p].as_str()), &name_chars)
            invariant
                p <= sorted@.len(),
                name_chars@ == name@,
                forall|k: int| 0 <= k < p ==> lex_le(#[trigger] sorted@[k]@, name@),
            decreases sorted@.len() - p,
        {
            p = p + 1;
        }
        let ghost before = string_views(sorted@);
        proof {
            if p < sorted@.len() {
                lemma_lex_le_total(sorted@[p as int]@, name@);
            }
        }
        sorted.insert(p, name);
        proof {
            let after = string_views(sorted@);
            assert(after == before.insert(p as int, name@));
            assert forall|a: int, b: int| 0 <= a < b < after.len() implies lex_le(
                after[a],
                after[b],
            ) by {
                if a < p && b == p {
                } else if a < p && b > p {
                    assert(lex_le(before[a], before[b - 1]));
                } else if a == p && b > p {
                    if b - 1 == p {
                        lemma_lex_le_reflexive(before[p as int]);
                    } else {
                        assert(lex_le(before[p as int], before[b - 1]));
                    }
                    lemma_lex_le_transitive(name@, before[p as int], before[b - 1]);
                } else if b < p {
                } else {
                    assert(lex_le(before[a - 1], before[b - 1]));
                }
            }
            assert(string_views(names@).take(i + 1) == string_views(names@).take(i as int).push(
                name@,
            ));
            assert(string_views(names@)[i as int] == name@);
        }
        i = i + 1;
    }
    assert(string_views(names@).take(names@.len() as int) == string_views(names@));
    sorted
}

/// The libraries that must lead the link line, dependents before
/// dependencies.
pub open spec fn leading_libs() -> Seq<Seq<char>> {
    seq!["mlxc"@, "mlx"@, "jaccl"@]
}

/// The order in which to link `names`: those of [`leading_libs`] that are
/// present, in that order, then every other name; the tail must be sorted
/// (see [`link_order`]) so the link line does not depend on the walk order.
pub open spec fn link_head(names: Seq<Seq<char>>) -> Seq<Seq<char>> {
    leading_libs().filter(present_in(names))
}

/// Whether a name is among `names`.
pub open spec fn present_in(names: Seq<Seq<char>>) -> spec_fn(Seq<char>) -> bool {
    |name: Seq<char>| names.contains(name)
}

/// Whether a name is not among [`leading_libs`].
pub open spec fn not_leading() -> spec_fn(Seq<char>) -> bool {
    |name: Seq<char>| !leading_libs().contains(name)
}

/// The names of `names` that are not among [`leading_libs`], in their order.
pub open spec fn link_tail(names: Seq<Seq<char>>) -> Seq<Seq<char>> {
    names.filter(not_leading())
}

fn contains_name(names: &Vec<String>, name: &str) -> (found: bool)
    ensures
        found == string_views(names@).contains(name@),
{
    let target = chars_of(name);
    let mut i: usize = 0;
    while i < names.len()
        invariant
            i <= names@.len(),
            target@ == name@,
            forall|k: int| 0 <= k < i ==> names@[k]@ != name@,
        decreases names@.len() - i,
    {
        if same_chars(&chars_of(names[i].as_str()), &target) {
            assert(string_views(names@)[i as int] == name@);
            return true;
        }
        i = i + 1;
    }
    assert forall|k: int| 0 <= k < string_views(names@).len() implies string_views(names@)[k]
        != name@ by {
        assert(string_views(names@)[k] == names@[k]@);
    }
    false
}

fn is_leading(name: &String) -> (b: bool)
    ensures
        b == leading_libs().contains(name@),
{
    let chars = chars_of(name.as_str());
    let b = same_chars(&chars, &chars_of("mlxc")) || same_chars(&chars, &chars_of("mlx"))
        || same_chars(&chars, &chars_of("jaccl"));
    proof {
        if leading_libs().contains(name@) {
            let k = choose|k: int| 0 <= k < 3 && leading_libs()[k] == name@;
            assert(k == 0 || k == 1 || k == 2);
        }
        if b {
            if name@ == "mlxc"@ {
                assert(leading_libs()[0] == name@);
            } else if name@ == "mlx"@ {
                assert(leading_libs()[1] == name@);
            } else {
                assert(leading_libs()[2] == name@);
            }
        }
    }
    b
}

/// The order in which to link the libraries `names`: the leading ones that are
/// present, then the rest sorted, so the link line is reproducible.
pub fn link_order(names: &Vec<String>) -> (order: Vec<String>)
    ensures
        string_views(order@).take(link_head(string_views(names@)).len() as int) == link_head(
            string_views(names@),
        ),
        sorted_names(string_views(order@).skip(link_head(string_views(names@)).len() as int)),
        string_views(order@).skip(link_head(string_views(names@)).len() as int).to_multiset()
            == link_tail(string_views(names@)).to_multiset(),
{
    let ghost all = string_views(names@);
    let mut order: Vec<String> = Vec::new();
    let leads: [&str; 3] = ["mlxc", "mlx", "jaccl"];
    let mut k: usize = 0;
    proof {
        assert(leads@.map_values(|l: &str| l@) == leading_libs());
        assert(leading_libs().take(0) == Seq::<Seq<char>>::empty());
        reveal(Seq::filter);
    }
    while k < 3
        invariant
            k <= 3,
            all == string_views(names@),
            leads@.map_values(|l: &str| l@) == leading_libs(),
            string_views(order@) == leading_libs().take(k as int).filter(present_in(all)),
        decreases 3 - k,
    {
        assert(leading_libs().take(k + 1).drop_last() == leading_libs().take(k as int));
        assert(leads@[k as int]@ == leading_libs()[k as int]);
        assert(leading_libs().take(k + 1) == leading_libs().take(k as int).push(leading_libs()[k as int]));
        proof {
            leading_libs().take(k as int).lemma_filter_push(leading_libs()[k as int], present_in(all));
        }
        let present = contains_name(names, leads[k]);
        assert(present == present_in(all)(leading_libs()[k as int]));
        if present {
            let ghost before = order@;
            order.push(string_of(&chars_of(leads[k])));
            assert(string_views(order@) == string_views(before).push(leads@[k as int]@));
        }
        k = k + 1;
    }
    assert(leading_libs().take(3) == leading_libs());
    let ghost head_len = order@.len();
    let mut rest: Vec<String> = Vec::new();
    let mut i: usize = 0;
    assert(all.take(0) == Seq::<Seq<char>>::empty());
    proof {
        reveal(Seq::filter);
    }
    while i < names.len()
        invariant
            i <= names@.len(),
            all == string_views(names@),
            string_views(rest@) == all.take(i as int).filter(not_leading()),
        decreases names@.len() - i,
    {
        assert(all.take(i + 1).drop_last() == all.take(i as int));
        assert(all[i as int] == names@[i as int]@);
        assert(all.take(i + 1) == all.take(i as int).push(all[i as int]));
        proof {
            all.take(i as int).lemma_filter_push(all[i as int], not_leading());
        }
        let leading = is_leading(&names[i]);
        assert(!leading == not_leading()(all[i as int]));
        if !leading {
            let ghost before = rest@;
            rest.push(names[i].clone());
            assert(string_views(rest@) == string_views(before).push(names@[i as int]@));
        }
        i = i + 1;
    }
    assert(all.take(names@.len() as int) == all);
    let mut tail = sort_names(rest);
    let ghost head = string_views(order@);
    let ghost tail_views = string_views(tail@);
    order.append(&mut tail);
    assert(string_views(order@) == head + tail_views);
    assert((head + tail_views).take(head.len() as int) == head);
    assert((head + tail_views).skip(head.len() as int) == tail_views);
    order
}

/// Which setting of a CMake cache file a line records.
#[derive(Copy, Clone, Debug, PartialEq, Eq, Structural)]
pub enum CacheKey {
    /// `CMAKE_HOME_DIRECTORY`: the source tree the cache was made for.
    HomeDirectory,
    /// `CMAKE_CACHEFILE_DIR`: the build tree the cache was made in.
    CacheFileDirectory,
}

/// A cache entry whose path must still resolve where this build expects.
pub struct CacheCheck {
    /// What the entry records.
    pub key: CacheKey,
    /// The recorded path.
    pub value: String,
}

/// The lines of `text`, as `str::lines` yields them: split at `\n`, each
/// terminated line losing one trailing `\r`, and no line after a final `\n`.
pub open spec fn lines_of(text: Seq<char>) -> Seq<Seq<char>> {
    let parts = split_on(text, '\n');
    let count = if parts.last().len() == 0 { parts.len() - 1 } else { parts.len() as int };
    Seq::new(
        count as nat,
        |i: int|
            if i < parts.len() - 1 && parts[i].len() > 0 && parts[i].last() == '\r' {
                parts[i].drop_last()
            } else {
                parts[i]
            },
    )
}

/// What a cache line asks to check: lines of the form `key=value` whose key
/// starts with `CMAKE_HOME_DIRECTORY:` or `CMAKE_CACHEFILE_DIR:`.
pub open spec fn cache_line_check(line: Seq<char>) -> Option<(CacheKey, Seq<char>)> {
    let eq = find_char(line, '=');
    if eq < 0 {
        None
    } else {
        let key = line.take(eq);
        let value = line.skip(eq + 1);
        if has_prefix(key, "CMAKE_HOME_DIRECTORY:"@) {
            Some((CacheKey::HomeDirectory, value))
        } else if has_prefix(key, "CMAKE_CACHEFILE_DIR:"@) {
            Some((CacheKey::CacheFileDirectory, value))
        } else {
            None
        }
    }
}

/// The checks a cache file asks for, in line order.
pub open spec fn cache_checks_of(text: Seq<char>) -> Seq<(CacheKey, Seq<char>)> {
    lines_of(text).filter_map(|line: Seq<char>| cache_line_check(line))
}

/// The views of cache checks.
pub open spec fn check_views(v: Seq<CacheCheck>) -> Seq<(CacheKey, Seq<char>)> {
    v.map_values(|c: CacheCheck| (c.key, c.value@))
}

fn cache_line(line: &[char]) -> (out: Option<CacheCheck>)
    ensures
        match cache_line_check(line@) {
            Some((key, value)) => out is Some && out->0.key == key && out->0.value@ == value,
            None => out is None,
        },
{
    let mut eq: usize = 0;
    while eq < line.len() && line[eq] != '='
        invariant
            eq <= line@.len(),
            forall|j: int| 0 <= j < eq ==> line@[j] != '=',
        decreases line@.len() - eq,
    {
        eq = eq + 1;
    }
    proof {
        lemma_find_char_bounds(line@, '=');
    }
    if eq == line.len() {
        proof {
            if find_char(line@, '=') >= 0 {
                assert(line@[find_char(line@, '=')] == '=');
            }
        }
        return None;
    }
    proof {
        if find_char(line@, '=') < 0 || find_char(line@, '=') > eq {
            assert(line@[eq as int] == '=');
        }
        if find_char(line@, '=') < eq {
            assert(line@[find_char(line@, '=')] == '=');
        }
    }
    let key = prefix_of(line, eq);
    let value = suffix_from(line, eq + 1);
    if starts_with(&key, &chars_of("CMAKE_HOME_DIRECTORY:")) {
        Some(CacheCheck { key: CacheKey::HomeDirectory, value: string_of(&value) })
    } else if starts_with(&key, &chars_of("CMAKE_CACHEFILE_DIR:")) {
        Some(CacheCheck { key: CacheKey::CacheFileDirectory, value: string_of(&value) })
    } else {
        None
    }
}

/// The entries of a CMake cache file whose paths must still match the tree
/// being built, in the order they appear. A stale one means the tree was made
/// for sources or a build directory that have since moved.
pub fn cmake_cache_checks(contents: &str) -> (checks: Vec<CacheCheck>)
    ensures
        check_views(checks@) == cache_checks_of(contents@),
{
    let text = chars_of(contents);
    let parts = split(&text, '\n');
    proof {
        crate::text::lemma_find_char_bounds(text@, '\n');
    }
    let ghost lines = lines_of(text@);
    let count: usize = if parts[parts.len() - 1].len() == 0 { parts.len() - 1 } else { parts.len() };
    let mut checks: Vec<CacheCheck> = Vec::new();
    let mut i: usize = 0;
    assert(lines.take(0) == Seq::<Seq<char>>::empty());
    while i < count
        invariant
            i <= count <= parts@.len(),
            views(parts@) == split_on(text@, '\n'),
            lines == lines_of(text@),
            lines.len() == count,
            check_views(checks@) == lines.take(i as int).filter_map(
                |line: Seq<char>| cache_line_check(line),
            ),
        decreases count - i,
    {
        let part = &parts[i];
        let line: Vec<char> = if i + 1 < parts.len() && part.len() > 0 && part[part.len() - 1]
            == '\r' {
            prefix_of(part, part.len() - 1)
        } else {
            prefix_of(part, part.len())
        };
        assert(views(parts@)[i as int] == part@);
        assert(part@.take(part@.len() as int) == part@);
        assert(line@ == lines[i as int]);
        assert(lines.take(i + 1).drop_last() == lines.take(i as int));
        match cache_line(&line) {
            Some(check) => {
                let ghost before = checks@;
                checks.push(check);
                assert(check_views(checks@) == check_views(before) + seq![(check.key, check.value@)]);
            },
            None => {},
        }
        i = i + 1;
    }
    assert(lines.take(count as int) == lines);
    checks
}

/// The `-D` definitions the MLX configuration gets, in order: the MLX source
/// tree to build against with no network fetch, a static CPU build with the
/// optional parts off, Metal as the features ask, the metallib location,
/// ccache when present, C++20 without LTO, and on macOS the architecture and
/// deployment target.
pub open spec fn cmake_definitions(
    mlx_src_dir: Seq<char>,
    metallib_dir: Seq<char>,
    metal: bool,
    metal_jit: bool,
    have_ccache: bool,
    target: Seq<char>,
    deployment_target: Seq<char>,
) -> Seq<(Seq<char>, Seq<char>)> {
    let on_off = |on: bool| if on { "ON"@ } else { "OFF"@ };
    let base = seq![("FETCHCONTENT_SOURCE_DIR_MLX"@, mlx_src_dir)] + seq![("MLX_C_USE_SYSTEM_MLX"@, "OFF"@), ("MLX_C_BUILD_EXAMPLES"@, "OFF"@), ("BUILD_SHARED_LIBS"@, "OFF"@), ("MLX_BUILD_TESTS"@, "OFF"@), ("MLX_BUILD_EXAMPLES"@, "OFF"@), ("MLX_BUILD_BENCHMARKS"@, "OFF"@), ("MLX_BUILD_PYTHON_BINDINGS"@, "OFF"@), ("MLX_BUILD_CUDA"@, "OFF"@), ("MLX_BUILD_CPU"@, "ON"@)]
        + seq![
        ("MLX_BUILD_METAL"@, on_off(metal)),
        ("MLX_METAL_JIT"@, on_off(metal_jit)),
        ("MLX_METAL_PATH"@, metallib_dir),
        ("MLX_USE_CCACHE"@, on_off(have_ccache)),
    ] + seq![("CMAKE_CXX_STANDARD"@, "20"@), ("CMAKE_CXX_STANDARD_REQUIRED"@, "ON"@), ("CMAKE_POSITION_INDEPENDENT_CODE"@, "ON"@), ("CMAKE_INTERPROCEDURAL_OPTIMIZATION"@, "OFF"@)];
    if has_infix(target, "apple-darwin"@) {
        base + seq![
            ("CMAKE_OSX_ARCHITECTURES"@, if has_infix(target, "aarch64"@) { "arm64"@ } else { "x86_64"@ }),
            ("CMAKE_OSX_DEPLOYMENT_TARGET"@, deployment_target),
        ]
    } else {
        base
    }
}

/// Whether `defines` sets `name` to `value` and to nothing else: some
/// definition of `name` has that value, and every definition of it does.
pub open spec fn defines_as(defines: Seq<(Seq<char>, Seq<char>)>, name: Seq<char>, value: Seq<char>) -> bool {
    &&& defines.contains((name, value))
    &&& forall|i: int| 0 <= i < defines.len() && (#[trigger] defines[i]).0 == name ==> defines[i].1 == value
}

/// CMake's word for a flag.
pub open spec fn on_off_word(on: bool) -> Seq<char> {
    if on {
        "ON"@
    } else {
        "OFF"@
    }
}

/// Each feature flag is configured by a definition of its own, `ON` exactly
/// when the flag is set and `OFF` otherwise: Metal by `MLX_BUILD_METAL`, its
/// JIT by `MLX_METAL_JIT`, ccache by `MLX_USE_CCACHE`; and MLX is always
/// built for the CPU and never for CUDA.
pub proof fn lemma_feature_flags_have_their_own_definitions(
    mlx_src_dir: Seq<char>,
    metallib_dir: Seq<char>,
    metal: bool,
    metal_jit: bool,
    have_ccache: bool,
    target: Seq<char>,
    deployment_target: Seq<char>,
)
    ensures
        ({
            let d = cmake_definitions(
                mlx_src_dir,
                metallib_dir,
                metal,
                metal_jit,
                have_ccache,
                target,
                deployment_target,
            );
            &&& defines_as(d, "MLX_BUILD_METAL"@, on_off_word(metal))
            &&& defines_as(d, "MLX_METAL_JIT"@, on_off_word(metal_jit))
            &&& defines_as(d, "MLX_USE_CCACHE"@, on_off_word(have_ccache))
            &&& defines_as(d, "MLX_BUILD_CPU"@, "ON"@)
            &&& defines_as(d, "MLX_BUILD_CUDA"@, "OFF"@)
        }),
{
    let d = cmake_definitions(
        mlx_src_dir,
        metallib_dir,
        metal,
        metal_jit,
        have_ccache,
        target,
        deployment_target,
    );
    reveal_strlit("FETCHCONTENT_SOURCE_DIR_MLX");
    reveal_strlit("MLX_C_USE_SYSTEM_MLX");
    reveal_strlit("MLX_C_BUILD_EXAMPLES");
    reveal_strlit("BUILD_SHARED_LIBS");
    reveal_strlit("MLX_BUILD_TESTS");
    reveal_strlit("MLX_BUILD_EXAMPLES");
    reveal_strlit("MLX_BUILD_BENCHMARKS");
    reveal_strlit("MLX_BUILD_PYTHON_BINDINGS");
    reveal_strlit("MLX_BUILD_CUDA");
    reveal_strlit("MLX_BUILD_CPU");
    reveal_strlit("MLX_BUILD_METAL");
    reveal_strlit("MLX_METAL_JIT");
    reveal_strlit("MLX_METAL_PATH");
    reveal_strlit("MLX_USE_CCACHE");
    reveal_strlit("CMAKE_CXX_STANDARD");
    reveal_strlit("CMAKE_CXX_STANDARD_REQUIRED");
    reveal_strlit("CMAKE_POSITION_INDEPENDENT_CODE");
    reveal_strlit("CMAKE_INTERPROCEDURAL_OPTIMIZATION");
    reveal_strlit("CMAKE_OSX_ARCHITECTURES");
    reveal_strlit("CMAKE_OSX_DEPLOYMENT_TARGET");
    assert(d[10] == ("MLX_BUILD_METAL"@, on_off_word(metal)));
    assert(d[11] == ("MLX_METAL_JIT"@, on_off_word(metal_jit)));
    assert(d[13] == ("MLX_USE_CCACHE"@, on_off_word(have_ccache)));
    assert(d[9] == ("MLX_BUILD_CPU"@, "ON"@));
    assert(d[8] == ("MLX_BUILD_CUDA"@, "OFF"@));
    assert forall|i: int| 0 <= i < d.len() implies {
        &&& ((#[trigger] d[i]).0 == "MLX_BUILD_METAL"@ ==> i == 10)
        &&& (d[i].0 == "MLX_METAL_JIT"@ ==> i == 11)
        &&& (d[i].0 == "MLX_USE_CCACHE"@ ==> i == 13)
        &&& (d[i].0 == "MLX_BUILD_CPU"@ ==> i == 9)
        &&& (d[i].0 == "MLX_BUILD_CUDA"@ ==> i == 8)
    } by {
        if i == 0 {
            assert(d[i].0 == "FETCHCONTENT_SOURCE_DIR_MLX"@);
        } else if i == 1 {
            assert(d[i].0 == "MLX_C_USE_SYSTEM_MLX"@);
        } else if i == 2 {
            assert(d[i].0 == "MLX_C_BUILD_EXAMPLES"@);
        } else if i == 3 {
            assert(d[i].0 == "BUILD_SHARED_LIBS"@);
        } else if i == 4 {
            assert(d[i].0 == "MLX_BUILD_TESTS"@);
            assert("MLX_BUILD_TESTS"@[10] != "MLX_BUILD_METAL"@[10]);
        } else if i == 5 {
            assert(d[i].0 == "MLX_BUILD_EXAMPLES"@);
        } else if i == 6 {
            assert(d[i].0 == "MLX_BUILD_BENCHMARKS"@);
        } else if i == 7 {
            assert(d[i].0 == "MLX_BUILD_PYTHON_BINDINGS"@);
        } else if i == 8 {
            assert(d[i].0 == "MLX_BUILD_CUDA"@);
            assert("MLX_BUILD_CUDA"@[4] != "MLX_USE_CCACHE"@[4]);
        } else if i == 9 {
            assert(d[i].0 == "MLX_BUILD_CPU"@);
            assert("MLX_BUILD_CPU"@[4] != "MLX_METAL_JIT"@[4]);
        } else if i == 10 {
            assert(d[i].0 == "MLX_BUILD_METAL"@);
        } else if i == 11 {
            assert(d[i].0 == "MLX_METAL_JIT"@);
            assert("MLX_METAL_JIT"@[4] != "MLX_BUILD_CPU"@[4]);
        } else if i == 12 {
            assert(d[i].0 == "MLX_METAL_PATH"@);
            assert("MLX_METAL_PATH"@[4] != "MLX_USE_CCACHE"@[4]);
            assert("MLX_METAL_PATH"@[4] != "MLX_BUILD_CUDA"@[4]);
        } else if i == 13 {
            assert(d[i].0 == "MLX_USE_CCACHE"@);
            assert("MLX_USE_CCACHE"@[4] != "MLX_BUILD_CUDA"@[4]);
        } else if i == 14 {
            assert(d[i].0 == "CMAKE_CXX_STANDARD"@);
        } else if i == 15 {
            assert(d[i].0 == "CMAKE_CXX_STANDARD_REQUIRED"@);
        } else if i == 16 {
            assert(d[i].0 == "CMAKE_POSITION_INDEPENDENT_CODE"@);
        } else if i == 17 {
            assert(d[i].0 == "CMAKE_INTERPROCEDURAL_OPTIMIZATION"@);
        } else if i == 18 {
            assert(d[i].0 == "CMAKE_OSX_ARCHITECTURES"@);
        } else if i == 19 {
            assert(d[i].0 == "CMAKE_OSX_DEPLOYMENT_TARGET"@);
        }
    }
}


/// The views of `(name, value)` definitions.
pub open spec fn definition_views(v: Seq<(String, String)>) -> Seq<(Seq<char>, Seq<char>)> {
    v.map_values(|d: (String, String)| (d.0@, d.1@))
}

fn push_define(defines: &mut Vec<(String, String)>, name: &str, value: &str)
    ensures
        definition_views(final(defines)@) == definition_views(old(defines)@).push((name@, value@)),
{
    let ghost before = defines@;
    defines.push((string_of(&chars_of(name)), string_of(&chars_of(value))));
    assert(definition_views(defines@) == definition_views(before).push((name@, value@)));
}

/// The `-D` definitions for configuring MLX (see [`cmake_definitions`]).
pub fn cmake_defines(
    mlx_src_dir: &str,
    metallib_dir: &str,
    metal: bool,
    metal_jit: bool,
    have_ccache: bool,
    target: &str,
    deployment_target: &str,
) -> (defines: Vec<(String, String)>)
    ensures
        definition_views(defines@) == cmake_definitions(
            mlx_src_dir@,
            metallib_dir@,
            metal,
            metal_jit,
            have_ccache,
            target@,
            deployment_target@,
        ),
        defines_as(definition_views(defines@), "MLX_BUILD_METAL"@, on_off_word(metal)),
        defines_as(definition_views(defines@), "MLX_METAL_JIT"@, on_off_word(metal_jit)),
        defines_as(definition_views(defines@), "MLX_USE_CCACHE"@, on_off_word(have_ccache)),
{
    let mut defines: Vec<(String, String)> = Vec::new();
    push_define(&mut defines, "FETCHCONTENT_SOURCE_DIR_MLX", mlx_src_dir);
    push_define(&mut defines, "MLX_C_USE_SYSTEM_MLX", "OFF");
    push_define(&mut defines, "MLX_C_BUILD_EXAMPLES", "OFF");
    push_define(&mut defines, "BUILD_SHARED_LIBS", "OFF");
    push_define(&mut defines, "MLX_BUILD_TESTS", "OFF");
    push_define(&mut defines, "MLX_BUILD_EXAMPLES", "OFF");
    push_define(&mut defines, "MLX_BUILD_BENCHMARKS", "OFF");
    push_define(&mut defines, "MLX_BUILD_PYTHON_BINDINGS", "OFF");
    push_define(&mut defines, "MLX_BUILD_CUDA", "OFF");
    push_define(&mut defines, "MLX_BUILD_CPU", "ON");
    push_define(&mut defines, "MLX_BUILD_METAL", cmake_bool(metal));
    push_define(&mut defines, "MLX_METAL_JIT", cmake_bool(metal_jit));
    push_define(&mut defines, "MLX_METAL_PATH", metallib_dir);
    push_define(&mut defines, "MLX_USE_CCACHE", cmake_bool(have_ccache));
    push_define(&mut defines, "CMAKE_CXX_STANDARD", "20");
    push_define(&mut defines, "CMAKE_CXX_STANDARD_REQUIRED", "ON");
    push_define(&mut defines, "CMAKE_POSITION_INDEPENDENT_CODE", "ON");
    push_define(&mut defines, "CMAKE_INTERPROCEDURAL_OPTIMIZATION", "OFF");
    if let Some(arch) = osx_architecture(target) {
        push_define(&mut defines, "CMAKE_OSX_ARCHITECTURES", arch);
        push_define(&mut defines, "CMAKE_OSX_DEPLOYMENT_TARGET", deployment_target);
    }
    proof {
        assert(definition_views(defines@) =~= cmake_definitions(
            mlx_src_dir@,
            metallib_dir@,
            metal,
            metal_jit,
            have_ccache,
            target@,
            deployment_target@,
        ));
        lemma_feature_flags_have_their_own_definitions(
            mlx_src_dir@,
            metallib_dir@,
            metal,
            metal_jit,
            have_ccache,
            target@,
            deployment_target@,
        );
    }
    defines
}

} // verus!
