//! File names: the names that decrypted files are stored and shown under,
//! and the suffixes that select archives and encrypted files.
//!
//! Splitting a path into components is the platform's business: what the
//! functions here take is the file name or extension that `Path::file_name`
//! or `Path::extension` gives (as text), so they decide the same on every
//! platform.

use vstd::prelude::*;
use crate::text::{chars_of, opt_chars, push_char, string_of};

verus! {

/// The name used where a path has no usable file name.
pub open spec fn default_name() -> Seq<char> {
    seq!['f', 'i', 'l', 'e', '.', 'e', 'n', 'c']
}

/// A path separator of either platform.
pub open spec fn is_separator(c: char) -> bool {
    c == '/' || c == '\\'
}

/// The name made safe to use as one component of a path, from the file name
/// of the path it came from: the default name where there is none (or it is
/// empty or `.`), and every `/` or `\` replaced by `_`.
pub open spec fn sanitized_name(file_name: Option<Seq<char>>) -> Seq<char> {
    let base = match file_name {
        Some(b) => b,
        None => default_name(),
    };
    if base.len() == 0 || base == seq!['.'] {
        default_name()
    } else {
        base.map_values(|c: char| if is_separator(c) { '_' } else { c })
    }
}

pub open spec fn enc_suffix() -> Seq<char> {
    seq!['.', 'e', 'n', 'c']
}

/// `name` without a trailing `.enc` (exact case), or `name` itself.
pub open spec fn without_enc_suffix(name: Seq<char>) -> Seq<char> {
    if name.len() >= 4 && name.subrange(name.len() - 4, name.len() as int) == enc_suffix() {
        name.take(name.len() - 4)
    } else {
        name
    }
}

/// Whether `name` ends in `.enc` in any ASCII letter case. (Lowercasing a
/// name, as `to_lowercase` does, ends it in `.enc` exactly when this holds:
/// only `C`, `E`, `N` and `.` lowercase to `c`, `e`, `n` and `.`.)
pub open spec fn ends_with_enc_ignoring_case(name: Seq<char>) -> bool {
    let n = name.len() as int;
    &&& n >= 4
    &&& name[n - 4] == '.'
    &&& (name[n - 3] == 'e' || name[n - 3] == 'E')
    &&& (name[n - 2] == 'n' || name[n - 2] == 'N')
    &&& (name[n - 1] == 'c' || name[n - 1] == 'C')
}

/// Whether an extension is `zip` in any ASCII letter case
/// (`eq_ignore_ascii_case("zip")`).
pub open spec fn zip_extension(e: Seq<char>) -> bool {
    &&& e.len() == 3
    &&& (e[0] == 'z' || e[0] == 'Z')
    &&& (e[1] == 'i' || e[1] == 'I')
    &&& (e[2] == 'p' || e[2] == 'P')
}

/// Whether a path with this extension (as text) names a zip archive.
pub open spec fn names_zip_archive(extension: Option<Seq<char>>) -> bool {
    match extension {
        Some(e) => zip_extension(e),
        None => false,
    }
}

/// The name under which a zip entry is decrypted, if it is decrypted at all,
/// from the file name of the entry's name: directories are skipped, and so
/// are files whose name does not end in `.enc`.
pub open spec fn zip_entry_target(file_name: Option<Seq<char>>, is_dir: bool) -> Option<Seq<char>> {
    if is_dir {
        None
    } else {
        let name = match file_name {
            Some(f) => f,
            None => default_name(),
        };
        if ends_with_enc_ignoring_case(name) {
            Some(name)
        } else {
            None
        }
    }
}

/// The characters of an optional string slice.
pub open spec fn opt_text(o: Option<&str>) -> Option<Seq<char>> {
    match o {
        Some(s) => Some(s@),
        None => None,
    }
}

/// Sanitizing a sanitized name, whose file name is the name itself, changes
/// nothing.
pub proof fn lemma_sanitize_idempotent(file_name: Option<Seq<char>>)
    ensures
        sanitized_name(Some(sanitized_name(file_name))) == sanitized_name(file_name),
{
    let s = sanitized_name(file_name);
    let base = match file_name {
        Some(b) => b,
        None => default_name(),
    };
    let sep = |c: char| if is_separator(c) { '_' } else { c };
    assert(s.len() > 0 && forall|k: int| 0 <= k < s.len() ==> !is_separator(#[trigger] s[k])) by {
        if !(base.len() == 0 || base == seq!['.']) {
            assert forall|k: int| 0 <= k < s.len() implies !is_separator(#[trigger] s[k]) by {
                assert(s[k] == sep(base[k]));
            }
        }
    }
    assert(s != seq!['.']) by {
        if !(base.len() == 0 || base == seq!['.']) && s.len() == 1 && s[0] == '.' {
            assert(s[0] == sep(base[0]));
            assert(base =~= seq!['.']);
        }
    }
    assert(s.map_values(sep) =~= s);
}

/// Removing the `.enc` suffix undoes appending it.
pub proof fn lemma_trim_enc_suffix_undoes_suffix(name: Seq<char>)
    ensures
        without_enc_suffix(name + enc_suffix()) == name,
{
    let t = name + enc_suffix();
    assert(t.subrange(t.len() - 4, t.len() as int) =~= enc_suffix());
    assert(t.take(t.len() - 4) =~= name);
}

/// Sanitizing keeps the file name, character for character, except that
/// each `/` or `\` becomes `_`; only a missing, empty or `.` file name is
/// replaced, by `file.enc`. So a file name without separators is kept as it
/// is.
pub proof fn lemma_sanitize_keeps_name(b: Seq<char>)
    ensures
        sanitized_name(None) == seq!['f', 'i', 'l', 'e', '.', 'e', 'n', 'c'],
        b.len() == 0 || b == seq!['.'] ==> sanitized_name(Some(b)) == seq![
            'f',
            'i',
            'l',
            'e',
            '.',
            'e',
            'n',
            'c',
        ],
        b.len() > 0 && b != seq!['.'] ==> sanitized_name(Some(b)).len() == b.len(),
        b.len() > 0 && b != seq!['.'] ==> forall|i: int|
            0 <= i < b.len() ==> #[trigger] sanitized_name(Some(b))[i] == if b[i] == '/' || b[i]
                == '\\' {
                '_'
            } else {
                b[i]
            },
        b.len() > 0 && b != seq!['.'] && (forall|i: int|
            0 <= i < b.len() ==> #[trigger] b[i] != '/' && b[i] != '\\') ==> sanitized_name(
            Some(b),
        ) == b,
{
    if b.len() > 0 && b != seq!['.'] && (forall|i: int|
        0 <= i < b.len() ==> #[trigger] b[i] != '/' && b[i] != '\\') {
        assert(sanitized_name(Some(b)) =~= b);
    }
}

/// The name shown for an encrypted file `x.enc`, where `x` holds no
/// separator, is `x`; a name without separators that does not end in
/// `.enc` is shown as it is (unless it is empty or `.`).
pub proof fn lemma_plain_name_of_enc_file(x: Seq<char>)
    requires
        forall|i: int| 0 <= i < x.len() ==> #[trigger] x[i] != '/' && x[i] != '\\',
    ensures
        without_enc_suffix(sanitized_name(Some(x + seq!['.', 'e', 'n', 'c']))) == x,
        x.len() > 0 && x != seq!['.'] && !(x.len() >= 4 && x.subrange(x.len() - 4, x.len() as int)
            == seq!['.', 'e', 'n', 'c']) ==> without_enc_suffix(sanitized_name(Some(x))) == x,
{
    let y = x + seq!['.', 'e', 'n', 'c'];
    assert forall|i: int| 0 <= i < y.len() implies #[trigger] y[i] != '/' && y[i] != '\\' by {
        if i < x.len() {
            assert(y[i] == x[i]);
        }
    }
    assert(y != seq!['.']) by {
        assert(y.len() >= 4);
    }
    lemma_sanitize_keeps_name(y);
    lemma_sanitize_keeps_name(x);
    lemma_trim_enc_suffix_undoes_suffix(x);
}

/// A zip entry is decrypted exactly when it is no directory and its file
/// name ends in `.enc` in any ASCII letter case, and then under that file
/// name; an entry without a file name counts as `file.enc`.
pub proof fn lemma_zip_entry_selection(name: Seq<char>, is_dir: bool)
    ensures
        is_dir ==> zip_entry_target(Some(name), is_dir) is None,
        !is_dir && name.len() >= 4 && name[name.len() - 4] == '.' && (name[name.len() - 3] == 'e'
            || name[name.len() - 3] == 'E') && (name[name.len() - 2] == 'n' || name[name.len() - 2]
            == 'N') && (name[name.len() - 1] == 'c' || name[name.len() - 1] == 'C') ==> zip_entry_target(
            Some(name),
            is_dir,
        ) == Some(name),
        !is_dir && !(name.len() >= 4 && name[name.len() - 4] == '.' && (name[name.len() - 3] == 'e'
            || name[name.len() - 3] == 'E') && (name[name.len() - 2] == 'n' || name[name.len() - 2]
            == 'N') && (name[name.len() - 1] == 'c' || name[name.len() - 1] == 'C'))
            ==> zip_entry_target(Some(name), is_dir) is None,
        !is_dir ==> zip_entry_target(None, is_dir) == Some(
            seq!['f', 'i', 'l', 'e', '.', 'e', 'n', 'c'],
        ),
{
}

/// The `.enc` suffix comes off exactly: `x.enc` gives `x`, and a name that
/// does not end in `.enc` (exact case) is kept.
pub proof fn lemma_enc_suffix_exact(x: Seq<char>)
    ensures
        without_enc_suffix(x + seq!['.', 'e', 'n', 'c']) == x,
        !(x.len() >= 4 && x[x.len() - 4] == '.' && x[x.len() - 3] == 'e' && x[x.len() - 2] == 'n'
            && x[x.len() - 1] == 'c') ==> without_enc_suffix(x) == x,
{
    let t = x + seq!['.', 'e', 'n', 'c'];
    assert(t.subrange(t.len() - 4, t.len() as int) =~= enc_suffix());
    assert(t.take(t.len() - 4) =~= x);
    if x.len() >= 4 && x.subrange(x.len() - 4, x.len() as int) == enc_suffix() {
        assert(x[x.len() - 4] == x.subrange(x.len() - 4, x.len() as int)[0]);
        assert(x[x.len() - 3] == x.subrange(x.len() - 4, x.len() as int)[1]);
        assert(x[x.len() - 2] == x.subrange(x.len() - 4, x.len() as int)[2]);
        assert(x[x.len() - 1] == x.subrange(x.len() - 4, x.len() as int)[3]);
    }
}

/// The file name `file_name` (as `Path::file_name` gives it, or none) made
/// safe to use as one component of a path: the default name where there is
/// none, and every `/` or `\` replaced by `_`. The result is never empty
/// and holds no separator.
pub fn sanitize_name(file_name: Option<&str>) -> (res: String)
    ensures
        res@ == sanitized_name(opt_text(file_name)),
        res@.len() > 0,
        forall|k: int| 0 <= k < res@.len() ==> !is_separator(#[trigger] res@[k]),
{
    let base: Vec<char> = match file_name {
        Some(f) => chars_of(f),
        None => vec!['f', 'i', 'l', 'e', '.', 'e', 'n', 'c'],
    };
    let ghost b = match opt_text(file_name) {
        Some(f) => f,
        None => default_name(),
    };
    assert(base@ == b);
    if base.len() == 0 || (base.len() == 1 && base[0] == '.') {
        assert(base@.len() == 0 || base@ =~= seq!['.']);
        let d = vec!['f', 'i', 'l', 'e', '.', 'e', 'n', 'c'];
        assert(d@ == default_name());
        return string_of(d.as_slice());
    }
    assert(base@ != seq!['.']) by {
        if base@.len() == 1 {
            assert(base@[0] != seq!['.'][0]);
        }
    }
    let mut out = String::new();
    let n = base.len();
    for i in 0..n
        invariant
            n == base@.len(),
            out@ == base@.take(i as int).map_values(
                |c: char| if is_separator(c) { '_' } else { c },
            ),
    {
        let c = base[i];
        let d = if c == '/' || c == '\\' {
            '_'
        } else {
            c
        };
        push_char(&mut out, d);
        assert(base@.take(i + 1).map_values(|c: char| if is_separator(c) { '_' } else { c })
            =~= base@.take(i as int).map_values(
            |c: char| if is_separator(c) { '_' } else { c },
        ).push(d));
    }
    assert(base@.take(n as int) =~= base@);
    out
}

/// `name` without a trailing `.enc` (`str::strip_suffix`, exact case).
pub fn trim_enc_suffix(name: &str) -> (res: String)
    ensures
        res@ == without_enc_suffix(name@),
{
    let cs = chars_of(name);
    let n = cs.len();
    if n >= 4 && cs[n - 4] == '.' && cs[n - 3] == 'e' && cs[n - 2] == 'n' && cs[n - 1] == 'c' {
        assert(cs@.subrange(n - 4, n as int) =~= enc_suffix());
        string_of(&cs.as_slice()[0..n - 4])
    } else {
        assert(n >= 4 ==> cs@.subrange(n - 4, n as int) != enc_suffix()) by {
            if n >= 4 {
                let t = cs@.subrange(n - 4, n as int);
                if cs[n - 4] != '.' {
                    assert(t[0] != enc_suffix()[0]);
                } else if cs[n - 3] != 'e' {
                    assert(t[1] != enc_suffix()[1]);
                } else if cs[n - 2] != 'n' {
                    assert(t[2] != enc_suffix()[2]);
                } else {
                    assert(t[3] != enc_suffix()[3]);
                }
            }
        }
        string_of(cs.as_slice())
    }
}

/// The name a decrypted file is shown and saved under: the sanitized file
/// name of the encrypted file (given as `Path::file_name` of its name gives
/// it) without its `.enc` suffix.
pub fn plain_name(file_name: Option<&str>) -> (res: String)
    ensures
        res@ == without_enc_suffix(sanitized_name(opt_text(file_name))),
{
    let s = sanitize_name(file_name);
    trim_enc_suffix(s.as_str())
}

/// Whether a name ends in `.enc` in any ASCII letter case.
pub fn is_enc_name(name: &str) -> (b: bool)
    ensures
        b == ends_with_enc_ignoring_case(name@),
{
    let cs = chars_of(name);
    let n = cs.len();
    n >= 4 && cs[n - 4] == '.' && (cs[n - 3] == 'e' || cs[n - 3] == 'E') && (cs[n - 2] == 'n'
        || cs[n - 2] == 'N') && (cs[n - 1] == 'c' || cs[n - 1] == 'C')
}

/// Whether a path with this extension (as `Path::extension` gives it, as
/// text, or none) names a zip archive: the extension is `zip` in any ASCII
/// letter case.
pub fn is_zip_path(extension: Option<&str>) -> (b: bool)
    ensures
        b == names_zip_archive(opt_text(extension)),
{
    match extension {
        None => false,
        Some(e) => {
            let cs = chars_of(e);
            cs.len() == 3 && (cs[0] == 'z' || cs[0] == 'Z') && (cs[1] == 'i' || cs[1] == 'I') && (
            cs[2] == 'p' || cs[2] == 'P')
        },
    }
}

/// The name under which a zip entry is decrypted (from the file name of the
/// entry's name, as `Path::file_name` gives it), or none if the entry is a
/// directory or that name does not end in `.enc` (any ASCII case).
pub fn zip_entry_name(file_name: Option<&str>, is_dir: bool) -> (res: Option<String>)
    ensures
        opt_chars(res) == zip_entry_target(opt_text(file_name), is_dir),
{
    if is_dir {
        return None;
    }
    let name = match file_name {
        Some(f) => String::from_str(f),
        None => {
            let d = vec!['f', 'i', 'l', 'e', '.', 'e', 'n', 'c'];
            assert(d@ == default_name());
            string_of(d.as_slice())
        },
    };
    if is_enc_name(name.as_str()) {
        Some(name)
    } else {
        None
    }
}

/// The text a preview is loaded from: the path itself.
pub fn asset_url(path: &str) -> (res: String)
    ensures
        res@ == path@,
{
    String::from_str(path)
}

} // verus!
