use vstd::prelude::*;
use crate::gateway::{ends_with_text, string_views, text_ends_with};
use crate::plugin_abi::{contains_text, text_contains};
use crate::text::{push_str_chars, str_chars, string_from_chars};

verus! {

/// The operating system family a plugin library is built for.
#[derive(Debug, Clone, Copy, PartialEq, Eq, Structural)]
pub enum Platform {
    Windows,
    MacOs,
    Unix,
}

/// The file name prefix of a dynamic library: none on Windows, "lib"
/// elsewhere.
pub open spec fn library_prefix_spec(p: Platform) -> Seq<char> {
    match p {
        Platform::Windows => Seq::empty(),
        _ => "lib"@,
    }
}

/// The file extension of a dynamic library.
pub open spec fn library_extension_spec(p: Platform) -> Seq<char> {
    match p {
        Platform::Windows => "dll"@,
        Platform::MacOs => "dylib"@,
        Platform::Unix => "so"@,
    }
}

/// The dynamic library prefix of a platform.
pub fn library_prefix(p: Platform) -> (s: &'static str)
    ensures
        s@ == library_prefix_spec(p),
{
    match p {
        Platform::Windows => {
            proof {
                reveal_strlit("");
            }
            ""
        },
        _ => "lib",
    }
}

/// The dynamic library extension of a platform.
pub fn library_extension(p: Platform) -> (s: &'static str)
    ensures
        s@ == library_extension_spec(p),
{
    match p {
        Platform::Windows => "dll",
        Platform::MacOs => "dylib",
        Platform::Unix => "so",
    }
}

/// `s` starts with `prefix`.
pub open spec fn starts_with_text(s: Seq<char>, prefix: Seq<char>) -> bool {
    prefix.len() <= s.len() && s.take(prefix.len() as int) == prefix
}

/// Whether `s` starts with `prefix` (as `str::starts_with` answers).
pub fn text_starts_with(s: &str, prefix: &str) -> (r: bool)
    ensures
        r == starts_with_text(s@, prefix@),
{
    let h = str_chars(s);
    let n = str_chars(prefix);
    if n.len() > h.len() {
        return false;
    }
    let mut k: usize = 0;
    while k < n.len()
        invariant
            k <= n.len() <= h.len(),
            h@ == s@,
            n@ == prefix@,
            forall|m: int| 0 <= m < k ==> h@[m] == n@[m],
        decreases n.len() - k,
    {
        if h[k] != n[k] {
            assert(h@.take(n.len() as int)[k as int] != n@[k as int]);
            return false;
        }
        k = k + 1;
    }
    assert(h@.take(n.len() as int) =~= n@);
    true
}

/// `s` without a leading `prefix` where it has one.
pub open spec fn strip_prefix_or_keep(s: Seq<char>, prefix: Seq<char>) -> Seq<char> {
    if starts_with_text(s, prefix) {
        s.skip(prefix.len() as int)
    } else {
        s
    }
}

/// The file name of a plugin's dynamic library: the platform prefix, the
/// plugin name without a leading "lib", a dot and the platform extension.
pub open spec fn library_file_name_spec(plugin_name: Seq<char>, p: Platform) -> Seq<char> {
    library_prefix_spec(p) + strip_prefix_or_keep(plugin_name, "lib"@) + "."@ + library_extension_spec(p)
}

/// Builds the file name of a plugin's dynamic library.
pub fn library_file_name(plugin_name: &str, p: Platform) -> (s: String)
    ensures
        s@ == library_file_name_spec(plugin_name@, p),
{
    let name = str_chars(plugin_name);
    let strip = text_starts_with(plugin_name, "lib");
    let from: usize = if strip {
        proof {
            reveal_strlit("lib");
        }
        3
    } else {
        0
    };
    let mut out: Vec<char> = Vec::new();
    push_str_chars(&mut out, library_prefix(p));
    let ghost base = out@;
    let mut i: usize = from;
    while i < name.len()
        invariant
            from <= i <= name.len(),
            name@ == plugin_name@,
            out@ == base + name@.subrange(from as int, i as int),
        decreases name.len() - i,
    {
        out.push(name[i]);
        i = i + 1;
        assert(out@ =~= base + name@.subrange(from as int, i as int));
    }
    out.push('.');
    push_str_chars(&mut out, library_extension(p));
    proof {
        reveal_strlit(".");
        reveal_strlit("lib");
        assert(name@.subrange(from as int, name.len() as int) =~= strip_prefix_or_keep(plugin_name@, "lib"@));
        assert(out@ =~= library_file_name_spec(plugin_name@, p));
    }
    string_from_chars(&out)
}

/// `s` is a dynamic library file name of some platform.
pub open spec fn has_library_extension(s: Seq<char>) -> bool {
    ends_with_text(s, ".so"@) || ends_with_text(s, ".dll"@) || ends_with_text(s, ".dylib"@)
}

/// Length of the library extension with its dot: 3 for ".so", 4 for ".dll",
/// 6 otherwise.
pub open spec fn extension_length(s: Seq<char>) -> int {
    if ends_with_text(s, ".so"@) {
        3
    } else if ends_with_text(s, ".dll"@) {
        4
    } else {
        6
    }
}

/// The characters of `s` from `start` to `end`, where that is a non-empty
/// stretch.
pub open spec fn nonempty_stretch(s: Seq<char>, start: int, end: int) -> Option<Seq<char>> {
    if 0 <= start < end <= s.len() {
        Some(s.subrange(start, end))
    } else {
        None
    }
}

/// The plugin name the shell reads from a library file name: a library
/// file whose name holds no ".d", without the platform prefix (where it
/// starts with it) and extension, when that leaves something.
pub open spec fn shell_plugin_name_spec(file: Seq<char>, p: Platform) -> Option<Seq<char>> {
    let prefix = library_prefix_spec(p);
    if has_library_extension(file) && !contains_text(file, ".d"@) {
        let end = file.len() - extension_length(file);
        let start = if starts_with_text(file, prefix) {
            prefix.len() as int
        } else {
            0
        };
        nonempty_stretch(file, start, end)
    } else {
        None
    }
}

/// The plugin name the orchestrator reads from a library file name: a
/// library file starting with the platform prefix and "plugin_", without
/// the prefix and extension.
pub open spec fn orchestrator_plugin_name_spec(file: Seq<char>, p: Platform) -> Option<Seq<char>> {
    let prefix = library_prefix_spec(p);
    if starts_with_text(file, prefix + "plugin_"@) && has_library_extension(file) {
        nonempty_stretch(file, prefix.len() as int, file.len() - extension_length(file))
    } else {
        None
    }
}

/// The characters `s[start..end]` as a string.
fn substring(s: &Vec<char>, start: usize, end: usize) -> (r: String)
    requires
        start <= end <= s.len(),
    ensures
        r@ == s@.subrange(start as int, end as int),
{
    let mut out: Vec<char> = Vec::new();
    let mut i: usize = start;
    while i < end
        invariant
            start <= i <= end <= s.len(),
            out@ == s@.subrange(start as int, i as int),
        decreases end - i,
    {
        out.push(s[i]);
        i = i + 1;
        assert(out@ =~= s@.subrange(start as int, i as int));
    }
    string_from_chars(&out)
}

fn extension_len(file: &str) -> (n: usize)
    ensures
        n == extension_length(file@),
{
    if text_ends_with(file, ".so") {
        3
    } else if text_ends_with(file, ".dll") {
        4
    } else {
        6
    }
}

fn is_library_file(file: &str) -> (r: bool)
    ensures
        r == has_library_extension(file@),
{
    text_ends_with(file, ".so") || text_ends_with(file, ".dll") || text_ends_with(file, ".dylib")
}

/// Reads a plugin name from a library file name the way the shell's plugin
/// scan does.
pub fn shell_plugin_name(file: &str, p: Platform) -> (r: Option<String>)
    ensures
        r matches Some(s) ==> shell_plugin_name_spec(file@, p) == Some(s@),
        r is None ==> shell_plugin_name_spec(file@, p) is None,
{
    if !is_library_file(file) || text_contains(file, ".d") {
        return None;
    }
    let chars = str_chars(file);
    let ext = extension_len(file);
    if ext > chars.len() {
        return None;
    }
    let end = chars.len() - ext;
    let prefix = library_prefix(p);
    let start: usize = if text_starts_with(file, prefix) {
        str_chars(prefix).len()
    } else {
        0
    };
    if start < end {
        Some(substring(&chars, start, end))
    } else {
        None
    }
}

/// Reads a plugin name from a library file name the way the orchestrator's
/// plugin scan does.
pub fn orchestrator_plugin_name(file: &str, p: Platform) -> (r: Option<String>)
    ensures
        r matches Some(s) ==> orchestrator_plugin_name_spec(file@, p) == Some(s@),
        r is None ==> orchestrator_plugin_name_spec(file@, p) is None,
{
    let prefix = library_prefix(p);
    let mut lead: Vec<char> = str_chars(prefix);
    push_str_chars(&mut lead, "plugin_");
    let lead_s = string_from_chars(&lead);
    if !text_starts_with(file, lead_s.as_str()) || !is_library_file(file) {
        return None;
    }
    let chars = str_chars(file);
    let ext = extension_len(file);
    if ext > chars.len() {
        return None;
    }
    let end = chars.len() - ext;
    let start = str_chars(prefix).len();
    if start < end {
        Some(substring(&chars, start, end))
    } else {
        None
    }
}

/// `a` comes strictly before `b` in dictionary order of characters (the
/// order of `str`, whose UTF-8 bytes compare as their characters do).
pub open spec fn text_lt(a: Seq<char>, b: Seq<char>) -> bool
    decreases a.len(),
{
    if a.len() == 0 {
        b.len() > 0
    } else if b.len() == 0 {
        false
    } else if a[0] != b[0] {
        (a[0] as int) < (b[0] as int)
    } else {
        text_lt(a.drop_first(), b.drop_first())
    }
}

proof fn lemma_text_lt_irreflexive(a: Seq<char>)
    ensures
        !text_lt(a, a),
    decreases a.len(),
{
    if a.len() > 0 {
        lemma_text_lt_irreflexive(a.drop_first());
    }
}

proof fn lemma_text_lt_total(a: Seq<char>, b: Seq<char>)
    ensures
        a == b || text_lt(a, b) || text_lt(b, a),
    decreases a.len(),
{
    if a.len() > 0 && b.len() > 0 && a[0] == b[0] {
        lemma_text_lt_total(a.drop_first(), b.drop_first());
        if a.drop_first() == b.drop_first() {
            assert(a =~= seq![a[0]] + a.drop_first());
            assert(b =~= seq![b[0]] + b.drop_first());
        }
    } else if a.len() == 0 && b.len() == 0 {
        assert(a =~= b);
    } else if a.len() > 0 && b.len() > 0 {
        let x = a[0];
        let y = b[0];
        assert(x as int != y as int);
    }
}

proof fn lemma_text_lt_asymmetric(a: Seq<char>, b: Seq<char>)
    requires
        text_lt(a, b),
    ensures
        !text_lt(b, a),
    decreases a.len(),
{
    if a.len() > 0 && b.len() > 0 && a[0] == b[0] {
        lemma_text_lt_asymmetric(a.drop_first(), b.drop_first());
    }
}

proof fn lemma_text_lt_transitive(a: Seq<char>, b: Seq<char>, c: Seq<char>)
    requires
        text_lt(a, b),
        text_lt(b, c),
    ensures
        text_lt(a, c),
    decreases a.len(),
{
    if a.len() > 0 && b.len() > 0 && c.len() > 0 && a[0] == b[0] && b[0] == c[0] {
        lemma_text_lt_transitive(a.drop_first(), b.drop_first(), c.drop_first());
    }
}

proof fn lemma_text_lt_common_prefix(a: Seq<char>, b: Seq<char>, i: int)
    requires
        0 <= i <= a.len(),
        i <= b.len(),
        forall|m: int| 0 <= m < i ==> a[m] == b[m],
    ensures
        text_lt(a, b) == text_lt(a.skip(i), b.skip(i)),
    decreases i,
{
    if i > 0 {
        lemma_text_lt_common_prefix(a.drop_first(), b.drop_first(), i - 1);
        assert(a.drop_first().skip(i - 1) =~= a.skip(i));
        assert(b.drop_first().skip(i - 1) =~= b.skip(i));
    } else {
        assert(a.skip(0) =~= a);
        assert(b.skip(0) =~= b);
    }
}

/// Whether `a` comes strictly before `b` in dictionary order.
pub fn text_less(a: &str, b: &str) -> (r: bool)
    ensures
        r == text_lt(a@, b@),
{
    let x = str_chars(a);
    let y = str_chars(b);
    let mut i: usize = 0;
    while i < x.len() && i < y.len() && x[i] == y[i]
        invariant
            i <= x.len(),
            i <= y.len(),
            x@ == a@,
            y@ == b@,
            forall|m: int| 0 <= m < i ==> x@[m] == y@[m],
        decreases x.len() - i,
    {
        i = i + 1;
    }
    proof {
        lemma_text_lt_common_prefix(x@, y@, i as int);
    }
    if i == x.len() {
        i < y.len()
    } else if i == y.len() {
        false
    } else {
        proof {
            assert(x@.skip(i as int)[0] == x@[i as int]);
            assert(y@.skip(i as int)[0] == y@[i as int]);
        }
        x[i] < y[i]
    }
}

/// `names` is in strictly increasing dictionary order (so without
/// repeats).
pub open spec fn strictly_sorted(names: Seq<Seq<char>>) -> bool {
    forall|i: int, j: int| 0 <= i < j < names.len() ==> text_lt(#[trigger] names[i], #[trigger] names[j])
}

/// A list in strictly increasing dictionary order is fixed by the names it
/// holds: two such lists with the same names are equal, so sorting and
/// removing repeats has exactly one possible result.
pub proof fn lemma_strictly_sorted_unique(a: Seq<Seq<char>>, b: Seq<Seq<char>>)
    requires
        strictly_sorted(a),
        strictly_sorted(b),
        a.to_set() == b.to_set(),
    ensures
        a == b,
    decreases a.len(),
{
    if a.len() == 0 {
        if b.len() > 0 {
            assert(b.to_set().contains(b[0]));
        }
        assert(a =~= b);
    } else if b.len() == 0 {
        assert(a.to_set().contains(a[0]));
    } else {
        assert(a.to_set().contains(a[0]));
        assert(b.to_set().contains(b[0]));
        let j = choose|j: int| 0 <= j < b.len() && b[j] == a[0];
        let i = choose|i: int| 0 <= i < a.len() && a[i] == b[0];
        if a[0] != b[0] {
            assert(j > 0 && i > 0);
            assert(text_lt(b[0], b[j]));
            assert(text_lt(a[0], a[i]));
            lemma_text_lt_asymmetric(a[0], b[0]);
            assert(false);
        }
        let ra = a.drop_first();
        let rb = b.drop_first();
        assert forall|x: Seq<char>| ra.to_set().contains(x) <==> rb.to_set().contains(x) by {
            if ra.to_set().contains(x) {
                let k = choose|k: int| 0 <= k < ra.len() && ra[k] == x;
                assert(a[k + 1] == x);
                assert(b.to_set().contains(x));
                let m = choose|m: int| 0 <= m < b.len() && b[m] == x;
                if m == 0 {
                    assert(text_lt(a[0], a[k + 1]));
                    lemma_text_lt_irreflexive(x);
                }
                assert(rb[m - 1] == x);
            }
            if rb.to_set().contains(x) {
                let k = choose|k: int| 0 <= k < rb.len() && rb[k] == x;
                assert(b[k + 1] == x);
                assert(a.to_set().contains(x));
                let m = choose|m: int| 0 <= m < a.len() && a[m] == x;
                if m == 0 {
                    assert(text_lt(b[0], b[k + 1]));
                    lemma_text_lt_irreflexive(x);
                }
                assert(ra[m - 1] == x);
            }
        }
        assert(ra.to_set() =~= rb.to_set());
        assert forall|p: int, q: int| 0 <= p < q < ra.len() implies text_lt(#[trigger] ra[p], #[trigger] ra[q]) by {
            assert(ra[p] == a[p + 1] && ra[q] == a[q + 1]);
        }
        assert forall|p: int, q: int| 0 <= p < q < rb.len() implies text_lt(#[trigger] rb[p], #[trigger] rb[q]) by {
            assert(rb[p] == b[p + 1] && rb[q] == b[q + 1]);
        }
        lemma_strictly_sorted_unique(ra, rb);
        assert(a =~= seq![a[0]] + ra);
        assert(b =~= seq![b[0]] + rb);
    }
}

/// The names sorted in dictionary order with repeats removed (what `sort`
/// then `dedup` leave of a list of strings).
pub fn sorted_unique_names(names: &Vec<String>) -> (r: Vec<String>)
    ensures
        strictly_sorted(string_views(r@)),
        string_views(r@).to_set() == string_views(names@).to_set(),
{
    let mut r: Vec<String> = Vec::new();
    let mut k: usize = 0;
    while k < names.len()
        invariant
            k <= names.len(),
            strictly_sorted(string_views(r@)),
            string_views(r@).to_set() == string_views(names@.take(k as int)).to_set(),
        decreases names.len() - k,
    {
        let x = names[k].as_str();
        let ghost old_r = string_views(r@);
        let mut p: usize = 0;
        while p < r.len() && text_less(r[p].as_str(), x)
            invariant
                p <= r.len(),
                old_r == string_views(r@),
                forall|i: int| 0 <= i < p ==> text_lt(#[trigger] old_r[i], x@),
            decreases r.len() - p,
        {
            assert(old_r[p as int] == r@[p as int]@);
            p = p + 1;
        }
        let ghost next_set = string_views(names@.take(k + 1)).to_set();
        proof {
            assert(string_views(names@.take(k + 1)) =~= string_views(names@.take(k as int)).push(x@));
            assert(next_set =~= old_r.to_set().insert(x@)) by {
                string_views(names@.take(k as int)).lemma_push_to_set_commute(x@);
            }
        }
        if p < r.len() && text_less(x, r[p].as_str()) || p == r.len() {
            proof {
                assert forall|i: int| p <= i < old_r.len() implies text_lt(x@, #[trigger] old_r[i]) by {
                    if i > p {
                        lemma_text_lt_transitive(x@, old_r[p as int], old_r[i]);
                    }
                }
            }
            r.insert(p, names[k].clone());
            proof {
                let nr = string_views(r@);
                assert(nr =~= old_r.insert(p as int, x@));
                assert forall|i: int, j: int| 0 <= i < j < nr.len() implies text_lt(#[trigger] nr[i], #[trigger] nr[j]) by {
                    if i < p && j < p {
                    } else if i < p && j == p {
                    } else if i < p {
                        assert(nr[j] == old_r[j - 1]);
                    } else if i == p {
                        assert(nr[j] == old_r[j - 1]);
                    } else {
                        assert(nr[i] == old_r[i - 1] && nr[j] == old_r[j - 1]);
                    }
                }
                assert(nr.to_set() =~= old_r.to_set().insert(x@)) by {
                    assert forall|v: Seq<char>| nr.to_set().contains(v) <==> old_r.to_set().insert(x@).contains(v) by {
                        if nr.to_set().contains(v) {
                            let i = choose|i: int| 0 <= i < nr.len() && nr[i] == v;
                            if i < p {
                                assert(old_r[i] == v);
                            } else if i > p {
                                assert(old_r[i - 1] == v);
                            }
                        }
                        if old_r.to_set().contains(v) {
                            let i = choose|i: int| 0 <= i < old_r.len() && old_r[i] == v;
                            if i < p {
                                assert(nr[i] == v);
                            } else {
                                assert(nr[i + 1] == v);
                            }
                        }
                        if v == x@ {
                            assert(nr[p as int] == v);
                        }
                    }
                }
            }
        } else {
            proof {
                assert(p < old_r.len());
                lemma_text_lt_total(old_r[p as int], x@);
                assert(old_r[p as int] == x@);
                assert(old_r.to_set().insert(x@) =~= old_r.to_set());
            }
        }
        k = k + 1;
    }
    proof {
        assert(names@.take(names.len() as int) =~= names@);
    }
    r
}

/// The orchestrator reads back the plugin name a library file was named
/// for: on every platform, the file name built for a plugin whose name
/// starts with "plugin_" yields that name.
pub proof fn lemma_library_name_roundtrip(name: Seq<char>, p: Platform)
    requires
        starts_with_text(name, "plugin_"@),
    ensures
        orchestrator_plugin_name_spec(library_file_name_spec(name, p), p) == Some(name),
{
    reveal_strlit("plugin_");
    reveal_strlit("lib");
    reveal_strlit(".");
    reveal_strlit("dll");
    reveal_strlit("dylib");
    reveal_strlit("so");
    reveal_strlit(".so");
    reveal_strlit(".dll");
    reveal_strlit(".dylib");
    let prefix = library_prefix_spec(p);
    let ext = library_extension_spec(p);
    assert(!starts_with_text(name, "lib"@)) by {
        assert(name.take(7) == "plugin_"@);
        assert(name.take(7)[0] == 'p');
        assert(name[0] == name.take(7)[0]);
        assert(name[0] == 'p');
        assert(name.take(3)[0] == 'p');
    }
    assert(strip_prefix_or_keep(name, "lib"@) == name);
    let file = library_file_name_spec(name, p);
    assert(file =~= prefix + name + "."@ + ext);
    assert(file.take(prefix.len() as int + 7) =~= prefix + "plugin_"@) by {
        assert(name.take(7) =~= "plugin_"@);
        assert forall|i: int| 0 <= i < prefix.len() + 7 implies file.take(prefix.len() as int + 7)[i] == (prefix
            + "plugin_"@)[i] by {
            if i >= prefix.len() {
                assert(file[i] == name[i - prefix.len()]);
                assert(name[i - prefix.len()] == name.take(7)[i - prefix.len()]);
            }
        }
    }
    let n = file.len();
    match p {
        Platform::Windows => {
            assert(file.skip(n - 4) =~= ".dll"@);
            assert(!ends_with_text(file, ".so"@)) by {
                assert(file[n - 1] == 'l');
                assert(file.skip(n - 3)[2] == file[n - 1]);
            }
            assert(file.subrange(0, n - 4) =~= name);
        },
        Platform::MacOs => {
            assert(file.skip(n - 6) =~= ".dylib"@);
            assert(!ends_with_text(file, ".so"@)) by {
                assert(file[n - 1] == 'b');
                assert(file.skip(n - 3)[2] == file[n - 1]);
            }
            assert(!ends_with_text(file, ".dll"@)) by {
                assert(file[n - 1] == 'b');
                assert(file.skip(n - 4)[3] == file[n - 1]);
            }
            assert(file.subrange(3, n - 6) =~= name);
        },
        Platform::Unix => {
            assert(file.skip(n - 3) =~= ".so"@);
            assert(file.subrange(3, n - 3) =~= name);
        },
    }
}

/// Library file names by platform: no prefix and ".dll" on Windows, "lib"
/// and ".dylib" on macOS, "lib" and ".so" on other Unix systems.
pub proof fn lemma_library_platforms()
    ensures
        library_prefix_spec(Platform::Windows) == Seq::<char>::empty() && library_extension_spec(Platform::Windows)
            == "dll"@,
        library_prefix_spec(Platform::MacOs) == "lib"@ && library_extension_spec(Platform::MacOs) == "dylib"@,
        library_prefix_spec(Platform::Unix) == "lib"@ && library_extension_spec(Platform::Unix) == "so"@,
{
}

} // verus!
