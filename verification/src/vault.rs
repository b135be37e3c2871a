//! The vault file format: all records to and from one block of text.
//!
//! The file is one line per record, newline-terminated. Loading maps
//! every line through the record codec and keeps the decodable ones in
//! file order, so corrupted or foreign lines cost only themselves;
//! saving renders the whole vault anew. Reading and writing the file
//! itself is the caller's business: these functions work on the text.

use crate::codec::{decode_entry, decode_line_spec, encode_entry};
use crate::crypto::{line_clean, CryptoError, FileCrypto};
use crate::entry::{EntryView, PasswordEntry};
use crate::text::{lemma_split_len, split, split_spec};
use vstd::prelude::*;
use vstd::string::StrSliceExecFns;
use vstd::string::StringExecFns;

verus! {

/// A piece of a split with one line-ending carriage return removed.
pub open spec fn strip_cr_spec(p: Seq<char>) -> Seq<char> {
    if p.len() > 0 && p.last() == '\r' {
        p.drop_last()
    } else {
        p
    }
}

pub open spec fn strip_all(ps: Seq<Seq<char>>) -> Seq<Seq<char>> {
    ps.map_values(|p: Seq<char>| strip_cr_spec(p))
}

/// The lines of `content`, as `str::lines` yields them: split at line
/// breaks, carriage returns before a break removed, no final empty
/// line for a trailing break.
pub open spec fn lines_spec(content: Seq<char>) -> Seq<Seq<char>> {
    let ps = split_spec(content, '\n');
    let body = strip_all(ps.drop_last());
    if ps.last().len() == 0 {
        body
    } else {
        body + seq![ps.last()]
    }
}

/// The records the given lines hold under `key`, in order, skipping
/// every line that does not decode.
pub open spec fn decode_lines_spec(key: Seq<u8>, ls: Seq<Seq<char>>) -> Seq<EntryView>
    decreases ls.len(),
{
    if ls.len() == 0 {
        Seq::empty()
    } else {
        let rest = decode_lines_spec(key, ls.drop_first());
        match decode_line_spec(key, ls.first()) {
            Some(e) => seq![e] + rest,
            None => rest,
        }
    }
}

/// What loading yields from the vault file's text under `key`.
pub open spec fn parse_vault_spec(key: Seq<u8>, content: Seq<char>) -> Seq<EntryView> {
    decode_lines_spec(key, lines_spec(content))
}

/// The text that holds the given lines: each one followed by a line
/// break.
pub open spec fn join_lines(ls: Seq<Seq<char>>) -> Seq<char>
    decreases ls.len(),
{
    if ls.len() == 0 {
        Seq::empty()
    } else {
        ls.first() + seq!['\n'] + join_lines(ls.drop_first())
    }
}

proof fn lemma_join_snoc(ls: Seq<Seq<char>>, l: Seq<char>)
    ensures
        join_lines(ls.push(l)) == join_lines(ls) + l + seq!['\n'],
    decreases ls.len(),
{
    if ls.len() == 0 {
        let d = ls.push(l).drop_first();
        assert(ls.push(l).first() == l);
        assert(d.len() == 0);
        assert(join_lines(d) =~= Seq::<char>::empty());
        assert(join_lines(ls) =~= Seq::<char>::empty());
        assert(join_lines(ls.push(l)) == l + seq!['\n'] + join_lines(d));
        assert(join_lines(ls.push(l)) =~= join_lines(ls) + l + seq!['\n']);
    } else {
        assert(ls.push(l).first() == ls.first());
        assert(ls.push(l).drop_first() =~~= ls.drop_first().push(l));
        lemma_join_snoc(ls.drop_first(), l);
        assert(join_lines(ls.push(l)) =~= join_lines(ls) + l + seq!['\n']);
    }
}

proof fn lemma_split_clean_prefix(a: Seq<char>, rest: Seq<char>)
    requires
        forall|i: int| 0 <= i < a.len() ==> a[i] != '\n',
    ensures
        split_spec(a + seq!['\n'] + rest, '\n') == seq![a] + split_spec(rest, '\n'),
    decreases a.len(),
{
    let s = a + seq!['\n'] + rest;
    lemma_split_len(rest, '\n');
    if a.len() == 0 {
        assert(s[0] == '\n');
        assert(s.drop_first() =~= rest);
        assert(split_spec(s, '\n') =~~= seq![a] + split_spec(rest, '\n'));
    } else {
        assert(s[0] == a[0]);
        assert(s.drop_first() =~= a.drop_first() + seq!['\n'] + rest);
        lemma_split_clean_prefix(a.drop_first(), rest);
        let r2 = split_spec(a.drop_first() + seq!['\n'] + rest, '\n');
        assert(r2[0] == a.drop_first());
        assert(seq![s[0]] + a.drop_first() =~= a);
        assert(r2.drop_first() =~~= split_spec(rest, '\n'));
        assert(split_spec(s, '\n') =~~= seq![a] + split_spec(rest, '\n'));
    }
}

proof fn lemma_lines_of_join(ls: Seq<Seq<char>>)
    requires
        forall|k: int| 0 <= k < ls.len() ==> line_clean(#[trigger] ls[k]),
    ensures
        lines_spec(join_lines(ls)) == ls,
    decreases ls.len(),
{
    if ls.len() == 0 {
        assert(lines_spec(join_lines(ls)) =~~= ls);
    } else {
        let l = ls.first();
        let rest = ls.drop_first();
        lemma_lines_of_join(rest);
        lemma_split_clean_prefix(l, join_lines(rest));
        let ps2 = split_spec(join_lines(rest), '\n');
        lemma_split_len(join_lines(rest), '\n');
        let ps = split_spec(join_lines(ls), '\n');
        assert(join_lines(ls) == l + seq!['\n'] + join_lines(rest));
        assert(ps == seq![l] + ps2);
        assert(ps.last() == ps2.last());
        assert(ps.drop_last() =~~= seq![l] + ps2.drop_last());
        assert(strip_cr_spec(l) == l);
        assert(strip_all(seq![l] + ps2.drop_last()) =~~= seq![l] + strip_all(ps2.drop_last()));
        assert(lines_spec(join_lines(ls)) =~~= seq![l] + lines_spec(join_lines(rest)));
        assert(seq![l] + rest =~~= ls);
    }
}

proof fn lemma_decode_lines_snoc(key: Seq<u8>, ls: Seq<Seq<char>>, l: Seq<char>)
    ensures
        decode_lines_spec(key, ls.push(l)) == decode_lines_spec(key, ls) + (
        match decode_line_spec(key, l) {
            Some(e) => seq![e],
            None => Seq::<EntryView>::empty(),
        }),
    decreases ls.len(),
{
    if ls.len() == 0 {
        let d = ls.push(l).drop_first();
        assert(ls.push(l).first() == l);
        assert(d.len() == 0);
        assert(decode_lines_spec(key, d) =~= Seq::<EntryView>::empty());
        assert(decode_lines_spec(key, ls) =~= Seq::<EntryView>::empty());
        assert(decode_lines_spec(key, ls.push(l)) =~= decode_lines_spec(key, ls) + (
        match decode_line_spec(key, l) {
            Some(e) => seq![e],
            None => Seq::<EntryView>::empty(),
        }));
    } else {
        assert(ls.push(l).first() == ls.first());
        assert(ls.push(l).drop_first() =~~= ls.drop_first().push(l));
        lemma_decode_lines_snoc(key, ls.drop_first(), l);
        assert(decode_lines_spec(key, ls.push(l)) =~= decode_lines_spec(key, ls) + (
        match decode_line_spec(key, l) {
            Some(e) => seq![e],
            None => Seq::<EntryView>::empty(),
        }));
    }
}

proof fn lemma_decode_lines_all(key: Seq<u8>, ls: Seq<Seq<char>>, es: Seq<EntryView>)
    requires
        ls.len() == es.len(),
        forall|k: int| 0 <= k < ls.len() ==> decode_line_spec(key, #[trigger] ls[k]) == Some(es[k]),
    ensures
        decode_lines_spec(key, ls) == es,
    decreases ls.len(),
{
    if ls.len() == 0 {
        assert(decode_lines_spec(key, ls) =~= es);
    } else {
        lemma_decode_lines_all(key, ls.drop_first(), es.drop_first());
        assert(decode_line_spec(key, ls[0]) == Some(es[0]));
        assert(decode_lines_spec(key, ls) =~= es);
    }
}

fn strip_cr(p: &str) -> (r: String)
    ensures
        r@ == strip_cr_spec(p@),
{
    let n = p.unicode_len();
    if n > 0 && p.get_char(n - 1) == '\r' {
        let r = String::from_str(p.substring_char(0, n - 1));
        proof {
            assert(p@.subrange(0, n - 1) =~= p@.drop_last());
        }
        r
    } else {
        String::from_str(p)
    }
}

/// The lines of `content`, as `str::lines` yields them, pinned to
/// [`lines_spec`].
pub fn lines(content: &str) -> (r: Vec<String>)
    ensures
        r.deep_view() == lines_spec(content@),
{
    let ghost ps0 = split_spec(content@, '\n');
    let mut ps = split(content, '\n');
    proof {
        lemma_split_len(content@, '\n');
    }
    let last = match ps.pop() {
        Some(l) => l,
        None => {
            proof {
                assert(false);
            }
            String::new()
        },
    };
    proof {
        assert(ps.deep_view() =~~= ps0.drop_last());
        assert(last@ == ps0.last());
    }
    let mut out: Vec<String> = Vec::new();
    let mut i: usize = 0;
    let n = ps.len();
    while i < n
        invariant
            i <= n,
            n == ps@.len(),
            ps.deep_view() =~~= ps0.drop_last(),
            out.deep_view().len() == i,
            forall|k: int|
                0 <= k < i ==> out.deep_view()[k] == strip_cr_spec(#[trigger] ps.deep_view()[k]),
        decreases n - i,
    {
        let stripped = strip_cr(ps[i].as_str());
        out.push(stripped);
        i = i + 1;
    }
    proof {
        assert(out.deep_view() =~~= strip_all(ps0.drop_last()));
    }
    if !last.as_str().is_empty() {
        let ghost body = out.deep_view();
        out.push(last);
        proof {
            assert(out.deep_view() =~~= body + seq![ps0.last()]);
        }
    }
    proof {
        assert(out.deep_view() =~~= lines_spec(content@));
    }
    out
}

/// Renders the whole vault as the text to store: exactly one line per
/// record, in order, each line followed by a line break, line `k`
/// decoding under the same key to record `k` — so parsing the
/// returned text yields back exactly the given records. With no
/// records it always succeeds, with the empty text; otherwise it
/// fails only when encryption does.
pub fn render_vault(crypto: &FileCrypto, entries: &Vec<PasswordEntry>) -> (r: Result<
    String,
    CryptoError,
>)
    ensures
        (match r {
            Ok(content) => {
                &&& parse_vault_spec(crypto.key(), content@) == entries.deep_view()
                &&& lines_spec(content@).len() == entries@.len()
                &&& forall|k: int|
                    0 <= k < entries@.len() ==> line_clean(#[trigger] lines_spec(content@)[k])
                        && decode_line_spec(crypto.key(), lines_spec(content@)[k]) == Some(
                        entries.deep_view()[k],
                    )
            },
            Err(e) => e == CryptoError::BackendFailure,
        }),
        entries@.len() == 0 ==> r is Ok,
{
    let mut content = String::new();
    let ghost mut glines: Seq<Seq<char>> = Seq::empty();
    let mut i: usize = 0;
    let n = entries.len();
    while i < n
        invariant
            i <= n,
            n == entries@.len(),
            glines.len() == i,
            forall|k: int|
                0 <= k < i ==> line_clean(#[trigger] glines[k]) && decode_line_spec(
                    crypto.key(),
                    glines[k],
                ) == Some(entries.deep_view()[k]),
            content@ == join_lines(glines),
        decreases n - i,
    {
        let line = match encode_entry(crypto, &entries[i]) {
            Ok(l) => l,
            Err(e) => return Err(e),
        };
        content.append(line.as_str());
        content.append("\n");
        proof {
            reveal_strlit("\n");
            assert("\n"@ =~= seq!['\n']);
            lemma_join_snoc(glines, line@);
            glines = glines.push(line@);
            assert(content@ == join_lines(glines));
            assert(entries.deep_view()[i as int] == entries@[i as int]@);
        }
        i = i + 1;
    }
    proof {
        lemma_lines_of_join(glines);
        lemma_decode_lines_all(crypto.key(), glines, entries.deep_view());
        assert(lines_spec(content@) == glines);
        assert(parse_vault_spec(crypto.key(), content@) == entries.deep_view());
    }
    Ok(content)
}

/// Parses the vault file's text: splits it into lines, decodes each
/// through the record codec, and keeps exactly the lines that decode,
/// in file order. Malformed or tampered lines cost only themselves,
/// and empty text yields no records.
pub fn parse_vault(crypto: &FileCrypto, content: &str) -> (r: Vec<PasswordEntry>)
    ensures
        r.deep_view() == parse_vault_spec(crypto.key(), content@),
{
    let ls = lines(content);
    let ghost lsv = ls.deep_view();
    let mut out: Vec<PasswordEntry> = Vec::new();
    let mut i: usize = 0;
    proof {
        assert(lsv.take(0) =~~= Seq::<Seq<char>>::empty());
    }
    let n = ls.len();
    while i < n
        invariant
            i <= n,
            n == ls@.len(),
            lsv == ls.deep_view(),
            out.deep_view() == decode_lines_spec(crypto.key(), lsv.take(i as int)),
        decreases n - i,
    {
        proof {
            lemma_decode_lines_snoc(crypto.key(), lsv.take(i as int), lsv[i as int]);
            assert(lsv.take(i as int).push(lsv[i as int]) =~~= lsv.take(i as int + 1));
        }
        let ghost before = out.deep_view();
        match decode_entry(crypto, ls[i].as_str()) {
            Some(e) => {
                out.push(e);
                proof {
                    assert(out.deep_view() =~~= before + seq![e@]);
                }
            },
            None => {},
        }
        i = i + 1;
    }
    proof {
        assert(lsv.take(n as int) =~~= lsv);
    }
    out
}

} // verus!
