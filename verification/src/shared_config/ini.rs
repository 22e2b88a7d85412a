//! INI-style key/value sections carried by the theme and ini blocks.

use crate::le::le_u32;
use crate::shared_config::codec_lemmas::{
    lemma_seq_split, lemma_small_count, lemma_string_x_at, lemma_subrange_of_prefix,
};
use crate::shared_config::error::SharedConfigError;
use crate::shared_config::reader::{eof_msg, i32_at, string_x_at, ConfigReader};
use crate::shared_config::writer::{
    count_bytes, lemma_wrote_all_empty, lemma_wrote_all_failed, lemma_wrote_all_meaning,
    lemma_wrote_all_of_wrote, lemma_wrote_all_then, string_fits, string_x_bytes,
    ConfigWriter,
};
use vstd::prelude::*;

verus! {

broadcast use crate::le::group_le_len;

/// Largest accepted number of entries in one section.
pub const MAX_INI_ENTRIES: i32 = 2048;

/// Largest number of sections that a block may hold when written.
pub const MAX_INI_SECTIONS: usize = 2;

/// A single INI section: a name and an ordered list of key/value pairs.
/// Order is preserved for byte-exact roundtrip (NOT a HashMap).
#[derive(Clone, Debug)]
pub struct IniSectionData {
    /// Section name (e.g. "ColorsLight", "Charts").
    pub name: String,
    /// Key/value pairs in the order they appeared on the wire.
    pub entries: Vec<(String, String)>,
}

/// The texts of a key/value pair.
pub open spec fn pair_view(e: (String, String)) -> (Seq<char>, Seq<char>) {
    (e.0@, e.1@)
}

/// The texts of the entries of a section.
pub open spec fn entries_view(es: Seq<(String, String)>) -> Seq<(Seq<char>, Seq<char>)> {
    Seq::new(es.len(), |i: int| pair_view(es[i]))
}

/// The texts of a section: its name and its entries.
pub open spec fn section_view(s: IniSectionData) -> (Seq<char>, Seq<(Seq<char>, Seq<char>)>) {
    (s.name@, entries_view(s.entries@))
}

/// The texts of a list of sections.
pub open spec fn sections_view(v: Seq<IniSectionData>) -> Seq<
    (Seq<char>, Seq<(Seq<char>, Seq<char>)>),
> {
    Seq::new(v.len(), |i: int| section_view(v[i]))
}

/// A character with ASCII upper case letters lowered.
pub open spec fn ascii_lower(c: char) -> char {
    if 'A' <= c && c <= 'Z' {
        ((c as u32) + 32) as char
    } else {
        c
    }
}

/// Whether two texts are equal up to ASCII case.
pub open spec fn eq_ignore_ascii_case(a: Seq<char>, b: Seq<char>) -> bool {
    a.len() == b.len() && forall|i: int| 0 <= i < a.len() ==> ascii_lower(a[i]) == ascii_lower(b[i])
}

/// Whether a section name is one of the allowed names, up to ASCII case.
pub open spec fn name_allowed(name: Seq<char>, allowed: Seq<Seq<char>>) -> bool {
    exists|i: int| 0 <= i < allowed.len() && eq_ignore_ascii_case(allowed[i], name)
}

/// `n` key/value pairs of `StringX` values from `p` on.
pub open spec fn entries_at(d: Seq<u8>, p: int, n: nat) -> Result<
    (Seq<(Seq<char>, Seq<char>)>, int),
    Seq<char>,
>
    decreases n,
{
    if n == 0 {
        Ok((Seq::empty(), p))
    } else {
        match entries_at(d, p, (n - 1) as nat) {
            Err(e) => Err(e),
            Ok((v, q)) => match string_x_at(d, q) {
                Err(e) => Err(e),
                Ok((k, q2)) => match string_x_at(d, q2) {
                    Err(e) => Err(e),
                    Ok((val, q3)) => Ok((v.push((k, val)), q3)),
                },
            },
        }
    }
}

/// One section at `p`: its name, which must be allowed, the `i32` entry
/// count, then the entries.
pub open spec fn section_at(d: Seq<u8>, p: int, allowed: Seq<Seq<char>>) -> Result<
    ((Seq<char>, Seq<(Seq<char>, Seq<char>)>), int),
    Seq<char>,
> {
    match string_x_at(d, p) {
        Err(e) => Err(e),
        Ok((name, q)) => if !name_allowed(name, allowed) {
            Err("wrong shared config ini section"@)
        } else if q + 4 > d.len() {
            Err(eof_msg())
        } else {
            let n = i32_at(d, q);
            if n < 0 || n > MAX_INI_ENTRIES {
                Err("wrong shared config ini entry count"@)
            } else {
                match entries_at(d, q + 4, n as nat) {
                    Err(e) => Err(e),
                    Ok((es, r)) => Ok(((name, es), r)),
                }
            }
        },
    }
}

/// `count` consecutive sections from `p` on.
pub open spec fn sections_at(d: Seq<u8>, p: int, allowed: Seq<Seq<char>>, count: nat) -> Result<
    (Seq<(Seq<char>, Seq<(Seq<char>, Seq<char>)>)>, int),
    Seq<char>,
>
    decreases count,
{
    if count == 0 {
        Ok((Seq::empty(), p))
    } else {
        match sections_at(d, p, allowed, (count - 1) as nat) {
            Err(e) => Err(e),
            Ok((v, q)) => match section_at(d, q, allowed) {
                Err(e) => Err(e),
                Ok((s, r)) => Ok((v.push(s), r)),
            },
        }
    }
}

/// A section list at `p`: an `i32` count, at most the number of allowed
/// names, then the sections.
pub open spec fn ini_sections_at(d: Seq<u8>, p: int, allowed: Seq<Seq<char>>) -> Result<
    (Seq<(Seq<char>, Seq<(Seq<char>, Seq<char>)>)>, int),
    Seq<char>,
> {
    if p + 4 > d.len() {
        Err(eof_msg())
    } else {
        let n = i32_at(d, p);
        if n < 0 || n > allowed.len() {
            Err("wrong shared config ini section count"@)
        } else {
            sections_at(d, p + 4, allowed, n as nat)
        }
    }
}

/// Bytes of key/value pairs.
pub open spec fn entries_bytes(es: Seq<(Seq<char>, Seq<char>)>) -> Seq<u8>
    decreases es.len(),
{
    if es.len() == 0 {
        Seq::empty()
    } else {
        entries_bytes(es.drop_last()) + string_x_bytes(es.last().0) + string_x_bytes(es.last().1)
    }
}

/// Bytes of one section.
pub open spec fn section_bytes(s: (Seq<char>, Seq<(Seq<char>, Seq<char>)>)) -> Seq<u8> {
    string_x_bytes(s.0) + count_bytes(s.1.len()) + entries_bytes(s.1)
}

/// Bytes of consecutive sections.
pub open spec fn sections_bytes(v: Seq<(Seq<char>, Seq<(Seq<char>, Seq<char>)>)>) -> Seq<u8>
    decreases v.len(),
{
    if v.len() == 0 {
        Seq::empty()
    } else {
        sections_bytes(v.drop_last()) + section_bytes(v.last())
    }
}

/// Bytes of a section list: the count, then the sections.
pub open spec fn ini_sections_bytes(v: Seq<(Seq<char>, Seq<(Seq<char>, Seq<char>)>)>) -> Seq<u8> {
    count_bytes(v.len()) + sections_bytes(v)
}

/// Whether a key and its value fit the string limit.
pub open spec fn pair_fits(e: (Seq<char>, Seq<char>)) -> bool {
    string_fits(e.0) && string_fits(e.1)
}

/// Whether every key and value fits the string limit.
pub open spec fn entries_fit(es: Seq<(Seq<char>, Seq<char>)>) -> bool {
    forall|i: int| 0 <= i < es.len() ==> #[trigger] pair_fits(es[i])
}

/// Whether a section can be written: its name and entries fit their limits.
pub open spec fn section_fits(s: (Seq<char>, Seq<(Seq<char>, Seq<char>)>)) -> bool {
    string_fits(s.0) && s.1.len() <= MAX_INI_ENTRIES && entries_fit(s.1)
}

/// Whether a section list can be written: at most two sections, each fitting.
pub open spec fn ini_sections_fit(v: Seq<(Seq<char>, Seq<(Seq<char>, Seq<char>)>)>) -> bool {
    v.len() <= MAX_INI_SECTIONS && forall|i: int| 0 <= i < v.len() ==> section_fits(#[trigger] v[i])
}

/// Whether two strings are equal up to ASCII case.
pub fn str_eq_ignore_ascii_case(a: &str, b: &str) -> (r: bool)
    ensures
        r == eq_ignore_ascii_case(a@, b@),
{
    let x = chars_of(a);
    let y = chars_of(b);
    if x.len() != y.len() {
        return false;
    }
    let mut i: usize = 0;
    while i < x.len()
        invariant
            0 <= i <= x@.len(),
            x@.len() == y@.len(),
            x@ == a@,
            y@ == b@,
            forall|k: int| 0 <= k < i ==> ascii_lower(x@[k]) == ascii_lower(y@[k]),
        decreases x@.len() - i,
    {
        if lower_char(x[i]) != lower_char(y[i]) {
            return false;
        }
        i = i + 1;
    }
    true
}

/// A character with ASCII upper case letters lowered.
fn lower_char(c: char) -> (r: char)
    ensures
        r == ascii_lower(c),
{
    if 'A' <= c && c <= 'Z' {
        let v: u32 = c as u32 + 32;
        match char::from_u32(v) {
            Some(l) => l,
            None => c,
        }
    } else {
        c
    }
}

/// The characters of a string.
fn chars_of(s: &str) -> (r: Vec<char>)
    ensures
        r@ == s@,
{
    let mut out: Vec<char> = Vec::new();
    let ghost text = s@;
    for c in it: s.chars()
        invariant
            it.seq() == text,
            out@ == text.take(it.index() as int),
    {
        let ghost n = it.index();
        out.push(c);
        proof {
            assert(out@ =~= text.take(n + 1));
        }
    }
    proof {
        assert(text.take(text.len() as int) =~= text);
    }
    out
}

/// Whether `name` is one of `allowed`, up to ASCII case.
pub fn is_allowed_name(name: &str, allowed: &[&str]) -> (r: bool)
    ensures
        r == name_allowed(name@, Seq::new(allowed@.len(), |i: int| allowed@[i]@)),
{
    let ghost names = Seq::new(allowed@.len(), |i: int| allowed@[i]@);
    let mut i: usize = 0;
    while i < allowed.len()
        invariant
            0 <= i <= allowed@.len(),
            names == Seq::new(allowed@.len(), |i: int| allowed@[i]@),
            forall|k: int| 0 <= k < i ==> !eq_ignore_ascii_case(names[k], name@),
        decreases allowed@.len() - i,
    {
        if str_eq_ignore_ascii_case(allowed[i], name) {
            proof {
                assert(names[i as int] == allowed@[i as int]@);
            }
            return true;
        }
        i = i + 1;
    }
    false
}

/// A failed prefix of the entries fails every longer run the same way.
pub proof fn lemma_entries_at_err_from(d: Seq<u8>, p: int, i: nat, n: nat)
    requires
        i <= n,
        entries_at(d, p, i) is Err,
    ensures
        entries_at(d, p, n) == entries_at(d, p, i),
    decreases n - i,
{
    if i < n {
        lemma_entries_at_err_from(d, p, (i + 1) as nat, n);
    }
}

/// A failed prefix of the sections fails every longer run the same way.
pub proof fn lemma_sections_at_err_from(d: Seq<u8>, p: int, allowed: Seq<Seq<char>>, i: nat, n: nat)
    requires
        i <= n,
        sections_at(d, p, allowed, i) is Err,
    ensures
        sections_at(d, p, allowed, n) == sections_at(d, p, allowed, i),
    decreases n - i,
{
    if i < n {
        lemma_sections_at_err_from(d, p, allowed, (i + 1) as nat, n);
    }
}

/// Read `n` key/value pairs.
pub fn read_ini_entries(r: &mut ConfigReader, n: usize) -> (res: Result<Vec<(String, String)>, SharedConfigError>)
    ensures
        final(r).bytes() == old(r).bytes(),
        match entries_at(old(r).bytes(), old(r).at(), n as nat) {
            Ok((v, q)) => res matches Ok(es) && entries_view(es@) == v && final(r).at() == q,
            Err(m) => res matches Err(e) && e@ == m,
        },
{
    let ghost d = r.bytes();
    let ghost p = r.at();
    let mut entries: Vec<(String, String)> = Vec::new();
    let mut i: usize = 0;
    proof {
        assert(entries_view(entries@) =~= Seq::<(Seq<char>, Seq<char>)>::empty());
    }
    while i < n
        invariant
            0 <= i <= n,
            r.bytes() == d,
            d == old(r).bytes(),
            p == old(r).at(),
            entries_at(d, p, i as nat) == Ok::<(Seq<(Seq<char>, Seq<char>)>, int), Seq<char>>(
                (entries_view(entries@), r.at()),
            ),
        decreases n - i,
    {
        let ghost before = entries@;
        let key = match r.read_string_x() {
            Ok(k) => k,
            Err(e) => {
                proof {
                    lemma_entries_at_err_from(d, p, (i + 1) as nat, n as nat);
                }
                return Err(e);
            },
        };
        let value = match r.read_string_x() {
            Ok(v) => v,
            Err(e) => {
                proof {
                    lemma_entries_at_err_from(d, p, (i + 1) as nat, n as nat);
                }
                return Err(e);
            },
        };
        entries.push((key, value));
        proof {
            assert(entries_view(entries@) =~= entries_view(before).push((key@, value@)));
        }
        i = i + 1;
    }
    Ok(entries)
}

/// Read one section whose name must be one of `allowed`, up to ASCII case.
pub fn read_ini_section(r: &mut ConfigReader, allowed: &[&str]) -> (res: Result<IniSectionData, SharedConfigError>)
    ensures
        final(r).bytes() == old(r).bytes(),
        match section_at(old(r).bytes(), old(r).at(), Seq::new(allowed@.len(), |i: int| allowed@[i]@)) {
            Ok((v, q)) => res matches Ok(s) && section_view(s) == v && final(r).at() == q,
            Err(m) => res matches Err(e) && e@ == m,
        },
{
    let name = r.read_string_x()?;
    if !is_allowed_name(name.as_str(), allowed) {
        return Err(SharedConfigError::new("wrong shared config ini section"));
    }
    let entry_count = r.read_i32()?;
    if entry_count < 0 || entry_count > MAX_INI_ENTRIES {
        return Err(SharedConfigError::new("wrong shared config ini entry count"));
    }
    let entries = read_ini_entries(r, entry_count as usize)?;
    Ok(IniSectionData { name, entries })
}

/// Read a section list: an `i32` count, at most `allowed.len()`, then the sections.
pub fn read_ini_sections(r: &mut ConfigReader, allowed: &[&str]) -> (res: Result<Vec<IniSectionData>, SharedConfigError>)
    ensures
        final(r).bytes() == old(r).bytes(),
        match ini_sections_at(old(r).bytes(), old(r).at(), Seq::new(allowed@.len(), |i: int| allowed@[i]@)) {
            Ok((v, q)) => res matches Ok(s) && sections_view(s@) == v && final(r).at() == q,
            Err(m) => res matches Err(e) && e@ == m,
        },
{
    let ghost d = r.bytes();
    let ghost names = Seq::new(allowed@.len(), |i: int| allowed@[i]@);
    let count = r.read_i32()?;
    if count < 0 || count as usize > allowed.len() {
        return Err(SharedConfigError::new("wrong shared config ini section count"));
    }
    let n = count as usize;
    let ghost start = r.at();
    let mut result: Vec<IniSectionData> = Vec::new();
    let mut i: usize = 0;
    proof {
        assert(sections_view(result@) =~= Seq::<(Seq<char>, Seq<(Seq<char>, Seq<char>)>)>::empty());
    }
    while i < n
        invariant
            0 <= i <= n,
            r.bytes() == d,
            d == old(r).bytes(),
            names == Seq::new(allowed@.len(), |i: int| allowed@[i]@),
            ini_sections_at(d, old(r).at(), names) == sections_at(d, start, names, n as nat),
            sections_at(d, start, names, i as nat) == Ok::<
                (Seq<(Seq<char>, Seq<(Seq<char>, Seq<char>)>)>, int),
                Seq<char>,
            >((sections_view(result@), r.at())),
        decreases n - i,
    {
        let ghost before = result@;
        match read_ini_section(r, allowed) {
            Ok(sec) => {
                result.push(sec);
                proof {
                    assert(sections_view(result@) =~= sections_view(before).push(section_view(sec)));
                }
                i = i + 1;
            },
            Err(e) => {
                proof {
                    lemma_sections_at_err_from(d, start, names, (i + 1) as nat, n as nat);
                }
                return Err(e);
            },
        }
    }
    Ok(result)
}

/// Write key/value pairs.
pub fn write_ini_entries(w: &mut ConfigWriter, entries: &[(String, String)])
    requires
        old(w).wf(),
    ensures
        final(w).wf(),
        final(w).wrote_all(old(w), entries_fit(entries_view(entries@)), entries_bytes(entries_view(entries@))),
{
    let ghost es = entries_view(entries@);
    let ghost w0 = *w;
    let mut i: usize = 0;
    proof {
        assert(es.take(0) =~= Seq::<(Seq<char>, Seq<char>)>::empty());
        assert(entries_bytes(es.take(0)) =~= Seq::<u8>::empty());
        assert(w0.written() + Seq::<u8>::empty() =~= w0.written());
        lemma_wrote_all_empty(w0);
    }
    while i < entries.len()
        invariant
            0 <= i <= entries@.len(),
            es == entries_view(entries@),
            w.wf(),
            w.wrote_all(&w0, entries_fit(es.take(i as int)), entries_bytes(es.take(i as int))),
        decreases entries@.len() - i,
    {
        let ghost w1 = *w;
        let ghost e = es[i as int];
        w.write_string_x(entries[i].0.as_str());
        let ghost w2 = *w;
        w.write_string_x(entries[i].1.as_str());
        proof {
            assert(e == (entries@[i as int].0@, entries@[i as int].1@));
            lemma_wrote_all_then(w0, w1, w2, entries_fit(es.take(i as int)), entries_bytes(es.take(i as int)), string_fits(e.0), string_x_bytes(e.0));
            lemma_wrote_all_then(w0, w2, *w, entries_fit(es.take(i as int)) && string_fits(e.0), entries_bytes(es.take(i as int)) + string_x_bytes(e.0), string_fits(e.1), string_x_bytes(e.1));
            assert(es.take(i + 1).drop_last() =~= es.take(i as int));
            let pre = es.take(i as int);
            let nxt = es.take(i + 1);
            assert(nxt[i as int] == e);
            assert forall|k: int| 0 <= k < i implies #[trigger] nxt[k] == pre[k] by {}
            if entries_fit(pre) && pair_fits(e) {
                assert forall|k: int| 0 <= k < i + 1 implies #[trigger] pair_fits(nxt[k]) by {
                    if k < i {
                        assert(nxt[k] == pre[k]);
                        assert(pair_fits(pre[k]));
                    }
                }
                assert(entries_fit(nxt));
            }
            if entries_fit(nxt) {
                assert(pair_fits(nxt[i as int]));
                assert forall|k: int| 0 <= k < i implies #[trigger] pair_fits(pre[k]) by {
                    assert(nxt[k] == pre[k]);
                    assert(pair_fits(nxt[k]));
                }
                assert(entries_fit(pre));
            }
            assert(entries_fit(nxt) == (entries_fit(pre) && string_fits(e.0) && string_fits(e.1)));
            assert(entries_bytes(nxt) == entries_bytes(pre) + string_x_bytes(e.0) + string_x_bytes(e.1));
        }
        i = i + 1;
    }
    proof {
        assert(es.take(entries@.len() as int) =~= es);
    }
}

/// Write one section: its name, its entry count, then its entries.
pub fn write_ini_section(w: &mut ConfigWriter, sec: &IniSectionData)
    requires
        old(w).wf(),
    ensures
        final(w).wf(),
        final(w).wrote_all(old(w), section_fits(section_view(*sec)), section_bytes(section_view(*sec))),
{
    let ghost v = section_view(*sec);
    let ghost w0 = *w;
    w.write_string_x(sec.name.as_str());
    if sec.entries.len() > MAX_INI_ENTRIES as usize {
        let ghost wn = *w;
        w.fail("too many shared config ini entries");
        proof {
            lemma_wrote_all_meaning(w0, wn, string_fits(v.0), string_x_bytes(v.0));
            lemma_wrote_all_failed(w0, *w, section_bytes(v));
        }
        return;
    }
    let ghost w1 = *w;
    w.write_i32(sec.entries.len() as i32);
    let ghost w2 = *w;
    proof {
        lemma_small_count(sec.entries.len() as u32);
        assert((sec.entries.len() as i32) as u32 == sec.entries.len() as u32);
        lemma_wrote_all_of_wrote(w1, w2, count_bytes(v.1.len()));
        lemma_wrote_all_then(w0, w1, w2, string_fits(v.0), string_x_bytes(v.0), true, count_bytes(v.1.len()));
    }
    write_ini_entries(w, sec.entries.as_slice());
    proof {
        lemma_wrote_all_then(w0, w2, *w, string_fits(v.0), string_x_bytes(v.0) + count_bytes(v.1.len()), entries_fit(v.1), entries_bytes(v.1));
    }
}

/// Write a section list: the count, at most two, then the sections.
pub fn write_ini_sections(w: &mut ConfigWriter, sections: &[IniSectionData])
    requires
        old(w).wf(),
    ensures
        final(w).wf(),
        final(w).wrote_all(old(w), ini_sections_fit(sections_view(sections@)), ini_sections_bytes(sections_view(sections@))),
{
    let ghost v = sections_view(sections@);
    let ghost w0 = *w;
    if sections.len() > MAX_INI_SECTIONS {
        w.fail("too many shared config ini sections");
        proof {
            lemma_wrote_all_failed(w0, *w, ini_sections_bytes(v));
        }
        return;
    }
    w.write_i32(sections.len() as i32);
    proof {
        assert((sections.len() as i32) as u32 == sections.len() as u32);
        lemma_wrote_all_of_wrote(w0, *w, count_bytes(v.len()));
        assert(v.take(0) =~= Seq::<(Seq<char>, Seq<(Seq<char>, Seq<char>)>)>::empty());
        assert(count_bytes(v.len()) + sections_bytes(v.take(0)) =~= count_bytes(v.len()));
    }
    let mut i: usize = 0;
    while i < sections.len()
        invariant
            0 <= i <= sections@.len(),
            sections@.len() <= MAX_INI_SECTIONS,
            v == sections_view(sections@),
            w.wf(),
            w.wrote_all(&w0, forall|k: int| 0 <= k < i ==> #[trigger] section_fits(v[k]), count_bytes(v.len()) + sections_bytes(v.take(i as int))),
        decreases sections@.len() - i,
    {
        let ghost w1 = *w;
        let ghost prefix_ok = forall|k: int| 0 <= k < i ==> #[trigger] section_fits(v[k]);
        write_ini_section(w, &sections[i]);
        proof {
            assert(v[i as int] == section_view(sections@[i as int]));
            assert(v.take(i + 1).drop_last() =~= v.take(i as int));
            lemma_wrote_all_then(w0, w1, *w, prefix_ok, count_bytes(v.len()) + sections_bytes(v.take(i as int)), section_fits(v[i as int]), section_bytes(v[i as int]));
            assert(count_bytes(v.len()) + sections_bytes(v.take(i + 1)) == count_bytes(v.len()) + sections_bytes(v.take(i as int)) + section_bytes(v[i as int]));
            let next_ok = forall|k: int| 0 <= k < i + 1 ==> #[trigger] section_fits(v[k]);
            assert(next_ok == (prefix_ok && section_fits(v[i as int])));
        }
        i = i + 1;
    }
    proof {
        assert(v.take(sections@.len() as int) =~= v);
    }
}

/// Key/value pairs read back from their bytes.
pub proof fn lemma_entries_at(es: Seq<(Seq<char>, Seq<char>)>, d: Seq<u8>, o: int)
    requires
        entries_fit(es),
        0 <= o,
        o + entries_bytes(es).len() <= d.len(),
        d.subrange(o, o + entries_bytes(es).len()) == entries_bytes(es),
    ensures
        entries_at(d, o, es.len()) == Ok::<(Seq<(Seq<char>, Seq<char>)>, int), Seq<char>>(
            (es, o + entries_bytes(es).len()),
        ),
    decreases es.len(),
{
    if es.len() == 0 {
        assert(es =~= Seq::<(Seq<char>, Seq<char>)>::empty());
    } else {
        let pre = es.drop_last();
        let e = es.last();
        assert(pair_fits(es[es.len() - 1]));
        assert forall|k: int| 0 <= k < pre.len() implies #[trigger] pair_fits(pre[k]) by {
            assert(pre[k] == es[k]);
            assert(pair_fits(es[k]));
        }
        let a = entries_bytes(pre);
        let kb = string_x_bytes(e.0);
        let vb = string_x_bytes(e.1);
        let total = entries_bytes(es);
        assert(total == a + kb + vb);
        let l1 = a.len() as int;
        let l2 = l1 + kb.len();
        let l3 = l2 + vb.len();
        lemma_seq_split(a + kb, vb);
        lemma_seq_split(a, kb);
        lemma_subrange_of_prefix(d.subrange(o, o + l3), l3, 0, l2);
        lemma_subrange_of_prefix(d.subrange(o, o + l3), l3, l2, l3);
        lemma_subrange_of_prefix(d.subrange(o, o + l3), l2, 0, l1);
        lemma_subrange_of_prefix(d.subrange(o, o + l3), l2, l1, l2);
        assert(d.subrange(o, o + l1) =~= d.subrange(o, o + l3).subrange(0, l1));
        assert(d.subrange(o + l1, o + l2) =~= d.subrange(o, o + l3).subrange(l1, l2));
        assert(d.subrange(o + l2, o + l3) =~= d.subrange(o, o + l3).subrange(l2, l3));
        lemma_entries_at(pre, d, o);
        lemma_string_x_at(e.0, d, o + l1);
        lemma_string_x_at(e.1, d, o + l2);
        assert(pre.push(e) =~= es);
    }
}

/// One section read back from its bytes, when its name is allowed.
pub proof fn lemma_section_at(
    sec: (Seq<char>, Seq<(Seq<char>, Seq<char>)>),
    d: Seq<u8>,
    o: int,
    allowed: Seq<Seq<char>>,
)
    requires
        section_fits(sec),
        name_allowed(sec.0, allowed),
        0 <= o,
        o + section_bytes(sec).len() <= d.len(),
        d.subrange(o, o + section_bytes(sec).len()) == section_bytes(sec),
    ensures
        section_at(d, o, allowed) == Ok::<
            ((Seq<char>, Seq<(Seq<char>, Seq<char>)>), int),
            Seq<char>,
        >((sec, o + section_bytes(sec).len())),
{
    let nb = string_x_bytes(sec.0);
    let cb = count_bytes(sec.1.len());
    let eb = entries_bytes(sec.1);
    let l1 = nb.len() as int;
    let l2 = l1 + 4;
    let l3 = l2 + eb.len();
    let all = d.subrange(o, o + l3);
    lemma_seq_split(nb + cb, eb);
    lemma_seq_split(nb, cb);
    lemma_subrange_of_prefix(all, l3, 0, l2);
    lemma_subrange_of_prefix(all, l3, l2, l3);
    lemma_subrange_of_prefix(all, l2, 0, l1);
    lemma_subrange_of_prefix(all, l2, l1, l2);
    assert(d.subrange(o, o + l1) =~= all.subrange(0, l1));
    assert(d.subrange(o + l2, o + l3) =~= all.subrange(l2, l3));
    lemma_string_x_at(sec.0, d, o);
    assert(d[o + l1] == all.subrange(l1, l2)[0] && d[o + l1 + 1] == all.subrange(l1, l2)[1] && d[
        o + l1 + 2
    ] == all.subrange(l1, l2)[2] && d[o + l1 + 3] == all.subrange(l1, l2)[3]);
    crate::le::lemma_le_u32_roundtrip(sec.1.len() as u32);
    lemma_small_count(sec.1.len() as u32);
    lemma_entries_at(sec.1, d, o + l2);
}

/// Consecutive sections read back from their bytes.
pub proof fn lemma_sections_at(
    v: Seq<(Seq<char>, Seq<(Seq<char>, Seq<char>)>)>,
    d: Seq<u8>,
    o: int,
    allowed: Seq<Seq<char>>,
)
    requires
        forall|k: int| 0 <= k < v.len() ==> #[trigger] section_fits(v[k]) && name_allowed(v[k].0, allowed),
        0 <= o,
        o + sections_bytes(v).len() <= d.len(),
        d.subrange(o, o + sections_bytes(v).len()) == sections_bytes(v),
    ensures
        sections_at(d, o, allowed, v.len()) == Ok::<
            (Seq<(Seq<char>, Seq<(Seq<char>, Seq<char>)>)>, int),
            Seq<char>,
        >((v, o + sections_bytes(v).len())),
    decreases v.len(),
{
    if v.len() == 0 {
        assert(v =~= Seq::<(Seq<char>, Seq<(Seq<char>, Seq<char>)>)>::empty());
    } else {
        let pre = v.drop_last();
        let sec = v.last();
        assert(section_fits(v[v.len() - 1]));
        assert forall|k: int| 0 <= k < pre.len() implies #[trigger] section_fits(pre[k]) && name_allowed(pre[k].0, allowed) by {
            assert(pre[k] == v[k]);
            assert(section_fits(v[k]));
        }
        let a = sections_bytes(pre);
        let b = section_bytes(sec);
        let l1 = a.len() as int;
        let l2 = l1 + b.len();
        let all = d.subrange(o, o + l2);
        lemma_seq_split(a, b);
        lemma_subrange_of_prefix(all, l2, 0, l1);
        lemma_subrange_of_prefix(all, l2, l1, l2);
        assert(d.subrange(o, o + l1) =~= all.subrange(0, l1));
        assert(d.subrange(o + l1, o + l2) =~= all.subrange(l1, l2));
        lemma_sections_at(pre, d, o, allowed);
        lemma_section_at(sec, d, o + l1, allowed);
        assert(pre.push(sec) =~= v);
    }
}

/// A section list read back from its bytes at `o`, when it fits, holds no
/// more sections than allowed names and every name is allowed.
pub proof fn lemma_ini_sections_at(
    v: Seq<(Seq<char>, Seq<(Seq<char>, Seq<char>)>)>,
    allowed: Seq<Seq<char>>,
    d: Seq<u8>,
    o: int,
)
    requires
        ini_sections_fit(v),
        v.len() <= allowed.len(),
        forall|k: int| 0 <= k < v.len() ==> name_allowed(#[trigger] v[k].0, allowed),
        0 <= o,
        o + ini_sections_bytes(v).len() <= d.len(),
        d.subrange(o, o + ini_sections_bytes(v).len()) == ini_sections_bytes(v),
    ensures
        ini_sections_at(d, o, allowed) == Ok::<
            (Seq<(Seq<char>, Seq<(Seq<char>, Seq<char>)>)>, int),
            Seq<char>,
        >((v, o + ini_sections_bytes(v).len())),
{
    let cb = count_bytes(v.len());
    let sb = sections_bytes(v);
    let l2 = (4 + sb.len()) as int;
    let all = d.subrange(o, o + l2);
    assert(ini_sections_bytes(v) == cb + sb);
    lemma_seq_split(cb, sb);
    lemma_subrange_of_prefix(all, l2, 0, 4);
    lemma_subrange_of_prefix(all, l2, 4, l2);
    assert(d.subrange(o + 4, o + l2) =~= all.subrange(4, l2));
    assert(d[o] == all.subrange(0, 4)[0] && d[o + 1] == all.subrange(0, 4)[1] && d[o + 2]
        == all.subrange(0, 4)[2] && d[o + 3] == all.subrange(0, 4)[3]);
    crate::le::lemma_le_u32_roundtrip(v.len() as u32);
    lemma_small_count(v.len() as u32);
    assert forall|k: int| 0 <= k < v.len() implies #[trigger] section_fits(v[k]) && name_allowed(v[k].0, allowed) by {
        assert(name_allowed(v[k].0, allowed));
    }
    lemma_sections_at(v, d, o + 4, allowed);
}

/// Reading back the bytes of a section list gives the same list, when it
/// fits, holds no more sections than allowed names and every name is allowed.
pub proof fn lemma_ini_sections_roundtrip(
    v: Seq<(Seq<char>, Seq<(Seq<char>, Seq<char>)>)>,
    allowed: Seq<Seq<char>>,
    rest: Seq<u8>,
)
    requires
        ini_sections_fit(v),
        v.len() <= allowed.len(),
        forall|k: int| 0 <= k < v.len() ==> name_allowed(#[trigger] v[k].0, allowed),
    ensures
        ini_sections_at(ini_sections_bytes(v) + rest, 0, allowed) == Ok::<
            (Seq<(Seq<char>, Seq<(Seq<char>, Seq<char>)>)>, int),
            Seq<char>,
        >((v, ini_sections_bytes(v).len() as int)),
{
    lemma_seq_split(ini_sections_bytes(v), rest);
    lemma_ini_sections_at(v, allowed, ini_sections_bytes(v) + rest, 0);
}

/// Active color theme and per-theme INI color overrides.
#[derive(Clone, Debug)]
pub struct ThemeSection {
    /// Active theme (0 = light, 1 = dark).
    pub current_style: i32,
    /// INI sections for theme colors (`ColorsLight`, `ColorsDark`).
    /// Each entry is `(section_name, Vec<(key, value)>)`.
    pub ini_sections: Vec<IniSectionData>,
    /// Opaque bytes from a newer MoonBot version (preserved for roundtrip).
    pub unknown_tail: Vec<u8>,
}

impl ThemeSection {
    /// Whether every field holds the value that [`ThemeSection::default`] gives.
    pub open spec fn is_default(&self) -> bool {
        &&& self.current_style == 0
        &&& self.ini_sections@.len() == 0
        &&& self.unknown_tail@.len() == 0
    }
}

impl Default for ThemeSection {
    fn default() -> (r: Self)
        ensures
            r.is_default(),
    {
        ThemeSection { current_style: 0, ini_sections: Vec::new(), unknown_tail: Vec::new() }
    }
}

/// Chart indicator and arbitrage color INI settings.
#[derive(Clone, Debug)]
pub struct IniSection {
    /// INI sections (`Charts`, `ArbColors`).
    /// Each entry is `(section_name, Vec<(key, value)>)`.
    pub ini_sections: Vec<IniSectionData>,
    /// Opaque bytes from a newer MoonBot version (preserved for roundtrip).
    pub unknown_tail: Vec<u8>,
}

impl IniSection {
    /// Whether every field holds the value that [`IniSection::default`] gives.
    pub open spec fn is_default(&self) -> bool {
        &&& self.ini_sections@.len() == 0
        &&& self.unknown_tail@.len() == 0
    }
}

impl Default for IniSection {
    fn default() -> (r: Self)
        ensures
            r.is_default(),
    {
        IniSection { ini_sections: Vec::new(), unknown_tail: Vec::new() }
    }
}

/// Section names of the theme block.
pub open spec fn theme_names() -> Seq<Seq<char>> {
    seq!["ColorsLight"@, "ColorsDark"@]
}

/// Section names of the ini block.
pub open spec fn ini_names() -> Seq<Seq<char>> {
    seq!["Charts"@, "ArbColors"@]
}

/// The bytes from `q` up to `block_end`, kept for a newer writer's fields.
pub open spec fn tail_of(d: Seq<u8>, q: int, block_end: int) -> Seq<u8> {
    if q < block_end {
        d.subrange(q, block_end)
    } else {
        Seq::empty()
    }
}

/// The theme block body at `p`: version `1`, the style, the sections and the
/// rest of the block; or why it is refused.
pub open spec fn theme_at(d: Seq<u8>, p: int, block_end: int) -> Result<
    (i32, Seq<(Seq<char>, Seq<(Seq<char>, Seq<char>)>)>, Seq<u8>),
    Seq<char>,
> {
    if p + 1 > d.len() {
        Err(eof_msg())
    } else if d[p] != 1 {
        Err("wrong shared theme version"@)
    } else if p + 5 > d.len() {
        Err(eof_msg())
    } else {
        match ini_sections_at(d, p + 5, theme_names()) {
            Err(e) => Err(e),
            Ok((v, q)) => Ok((i32_at(d, p + 1), v, tail_of(d, q, block_end))),
        }
    }
}

/// The ini block body at `p`: version `1`, the sections and the rest of the
/// block; or why it is refused.
pub open spec fn ini_at(d: Seq<u8>, p: int, block_end: int) -> Result<
    (Seq<(Seq<char>, Seq<(Seq<char>, Seq<char>)>)>, Seq<u8>),
    Seq<char>,
> {
    if p + 1 > d.len() {
        Err(eof_msg())
    } else if d[p] != 1 {
        Err("wrong shared ini version"@)
    } else {
        match ini_sections_at(d, p + 1, ini_names()) {
            Err(e) => Err(e),
            Ok((v, q)) => Ok((v, tail_of(d, q, block_end))),
        }
    }
}

/// Bytes of a theme block body.
pub open spec fn theme_bytes(t: ThemeSection) -> Seq<u8> {
    seq![1u8] + le_u32(t.current_style as u32) + ini_sections_bytes(sections_view(t.ini_sections@))
        + t.unknown_tail@
}

/// Bytes of an ini block body.
pub open spec fn ini_bytes(i: IniSection) -> Seq<u8> {
    seq![1u8] + ini_sections_bytes(sections_view(i.ini_sections@)) + i.unknown_tail@
}

/// Read the theme block body that ends at `block_end`.
pub fn parse_theme(r: &mut ConfigReader, block_end: usize) -> (res: Result<ThemeSection, SharedConfigError>)
    requires
        block_end <= old(r).bytes().len(),
    ensures
        match theme_at(old(r).bytes(), old(r).at(), block_end as int) {
            Ok((style, v, tail)) => res matches Ok(t) && t.current_style == style && sections_view(
                t.ini_sections@,
            ) == v && t.unknown_tail@ == tail,
            Err(m) => res matches Err(e) && e@ == m,
        },
{
    let ver = r.read_u8()?;
    if ver != 1 {
        return Err(SharedConfigError::new("wrong shared theme version"));
    }
    let current_style = r.read_i32()?;
    let names: [&str; 2] = ["ColorsLight", "ColorsDark"];
    proof {
        assert(Seq::new(names@.len(), |i: int| names@[i]@) =~= theme_names());
    }
    let ini_sections = read_ini_sections(r, names.as_slice())?;
    let unknown_tail = r.read_tail(block_end);
    Ok(ThemeSection { current_style, ini_sections, unknown_tail })
}

/// Read the ini block body that ends at `block_end`.
pub fn parse_ini(r: &mut ConfigReader, block_end: usize) -> (res: Result<IniSection, SharedConfigError>)
    requires
        block_end <= old(r).bytes().len(),
    ensures
        match ini_at(old(r).bytes(), old(r).at(), block_end as int) {
            Ok((v, tail)) => res matches Ok(t) && sections_view(t.ini_sections@) == v
                && t.unknown_tail@ == tail,
            Err(m) => res matches Err(e) && e@ == m,
        },
{
    let ver = r.read_u8()?;
    if ver != 1 {
        return Err(SharedConfigError::new("wrong shared ini version"));
    }
    let names: [&str; 2] = ["Charts", "ArbColors"];
    proof {
        assert(Seq::new(names@.len(), |i: int| names@[i]@) =~= ini_names());
    }
    let ini_sections = read_ini_sections(r, names.as_slice())?;
    let unknown_tail = r.read_tail(block_end);
    Ok(IniSection { ini_sections, unknown_tail })
}

/// Write a theme block body.
pub fn write_theme(w: &mut ConfigWriter, t: &ThemeSection)
    requires
        old(w).wf(),
    ensures
        final(w).wf(),
        final(w).wrote_all(old(w), ini_sections_fit(sections_view(t.ini_sections@)), theme_bytes(*t)),
{
    let ghost v = sections_view(t.ini_sections@);
    let ghost w0 = *w;
    w.write_u8(1);
    let ghost w1 = *w;
    w.write_i32(t.current_style);
    let ghost w2 = *w;
    write_ini_sections(w, t.ini_sections.as_slice());
    let ghost w3 = *w;
    w.write_bytes(t.unknown_tail.as_slice());
    proof {
        lemma_wrote_all_of_wrote(w0, w1, seq![1u8]);
        lemma_wrote_all_of_wrote(w1, w2, le_u32(t.current_style as u32));
        lemma_wrote_all_then(w0, w1, w2, true, seq![1u8], true, le_u32(t.current_style as u32));
        lemma_wrote_all_then(w0, w2, w3, true, seq![1u8] + le_u32(t.current_style as u32), ini_sections_fit(v), ini_sections_bytes(v));
        lemma_wrote_all_of_wrote(w3, *w, t.unknown_tail@);
        lemma_wrote_all_then(w0, w3, *w, ini_sections_fit(v), seq![1u8] + le_u32(t.current_style as u32) + ini_sections_bytes(v), true, t.unknown_tail@);
    }
}

/// Write an ini block body.
pub fn write_ini(w: &mut ConfigWriter, i: &IniSection)
    requires
        old(w).wf(),
    ensures
        final(w).wf(),
        final(w).wrote_all(old(w), ini_sections_fit(sections_view(i.ini_sections@)), ini_bytes(*i)),
{
    let ghost v = sections_view(i.ini_sections@);
    let ghost w0 = *w;
    w.write_u8(1);
    let ghost w1 = *w;
    write_ini_sections(w, i.ini_sections.as_slice());
    let ghost w2 = *w;
    w.write_bytes(i.unknown_tail.as_slice());
    proof {
        lemma_wrote_all_of_wrote(w0, w1, seq![1u8]);
        lemma_wrote_all_then(w0, w1, w2, true, seq![1u8], ini_sections_fit(v), ini_sections_bytes(v));
        lemma_wrote_all_of_wrote(w2, *w, i.unknown_tail@);
        lemma_wrote_all_then(w0, w2, *w, ini_sections_fit(v), seq![1u8] + ini_sections_bytes(v), true, i.unknown_tail@);
    }
}

/// Reading back a written theme block gives the same theme, when its sections
/// fit and are named `ColorsLight` or `ColorsDark` (any ASCII case).
pub proof fn lemma_theme_roundtrip(t: ThemeSection)
    requires
        ini_sections_fit(sections_view(t.ini_sections@)),
        forall|k: int| 0 <= k < t.ini_sections@.len() ==> name_allowed(#[trigger] t.ini_sections@[k].name@, theme_names()),
    ensures
        theme_at(theme_bytes(t), 0, theme_bytes(t).len() as int) == Ok::<
            (i32, Seq<(Seq<char>, Seq<(Seq<char>, Seq<char>)>)>, Seq<u8>),
            Seq<char>,
        >((t.current_style, sections_view(t.ini_sections@), t.unknown_tail@)),
{
    let v = sections_view(t.ini_sections@);
    let s1 = seq![1u8];
    let le = le_u32(t.current_style as u32);
    let sb = ini_sections_bytes(v);
    let tail = t.unknown_tail@;
    let x = s1 + le + sb;
    let d = x + tail;
    assert(d == theme_bytes(t));
    let q = (5 + sb.len()) as int;
    lemma_seq_split(x, tail);
    lemma_seq_split(s1 + le, sb);
    lemma_subrange_of_prefix(d, q, 5, q);
    lemma_subrange_of_prefix(d, q, 0, 5);
    lemma_seq_split(s1, le);
    assert(d[0] == d.subrange(0, 5)[0]);
    assert(d[1] == d.subrange(0, 5)[1] && d[2] == d.subrange(0, 5)[2] && d[3] == d.subrange(0, 5)[3]
        && d[4] == d.subrange(0, 5)[4]);
    assert((s1 + le)[1] == le[0] && (s1 + le)[2] == le[1] && (s1 + le)[3] == le[2] && (s1 + le)[4]
        == le[3]);
    crate::shared_config::codec_lemmas::lemma_le_i32_roundtrip(t.current_style);
    assert forall|k: int| 0 <= k < v.len() implies name_allowed(#[trigger] v[k].0, theme_names()) by {
        assert(v[k].0 == t.ini_sections@[k].name@);
    }
    lemma_ini_sections_at(v, theme_names(), d, 5);
    if q >= d.len() {
        assert(tail =~= Seq::<u8>::empty());
    }
}

/// Reading back a written ini block gives the same block, when its sections
/// fit and are named `Charts` or `ArbColors` (any ASCII case).
pub proof fn lemma_ini_roundtrip(i: IniSection)
    requires
        ini_sections_fit(sections_view(i.ini_sections@)),
        forall|k: int| 0 <= k < i.ini_sections@.len() ==> name_allowed(#[trigger] i.ini_sections@[k].name@, ini_names()),
    ensures
        ini_at(ini_bytes(i), 0, ini_bytes(i).len() as int) == Ok::<
            (Seq<(Seq<char>, Seq<(Seq<char>, Seq<char>)>)>, Seq<u8>),
            Seq<char>,
        >((sections_view(i.ini_sections@), i.unknown_tail@)),
{
    let v = sections_view(i.ini_sections@);
    let s1 = seq![1u8];
    let sb = ini_sections_bytes(v);
    let tail = i.unknown_tail@;
    let x = s1 + sb;
    let d = x + tail;
    assert(d == ini_bytes(i));
    let q = (1 + sb.len()) as int;
    lemma_seq_split(x, tail);
    lemma_seq_split(s1, sb);
    lemma_subrange_of_prefix(d, q, 1, q);
    lemma_subrange_of_prefix(d, q, 0, 1);
    assert(d[0] == d.subrange(0, 1)[0]);
    assert forall|k: int| 0 <= k < v.len() implies name_allowed(#[trigger] v[k].0, ini_names()) by {
        assert(v[k].0 == i.ini_sections@[k].name@);
    }
    lemma_ini_sections_at(v, ini_names(), d, 1);
    if q >= d.len() {
        assert(tail =~= Seq::<u8>::empty());
    }
}

} // verus!
