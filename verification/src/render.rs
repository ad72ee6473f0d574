use vstd::prelude::*;

verus! {

/// The key prefix that marks service-internal metadata; keys carrying it
/// are excluded from the cache file.
pub open spec fn spec_reserved_prefix() -> Seq<char> {
    "DOPPLER_"@
}

/// `p` is a prefix of `s`.
pub open spec fn spec_has_prefix(s: Seq<char>, p: Seq<char>) -> bool {
    p.len() <= s.len() && s.take(p.len() as int) == p
}

/// Whether a secret with key `k` is written to the cache file: every key
/// is kept except those carrying the reserved prefix.
pub open spec fn spec_key_kept(k: Seq<char>) -> bool {
    !spec_has_prefix(k, spec_reserved_prefix())
}

/// The one cache line a kept secret turns into (with its trailing newline).
pub open spec fn spec_export_line(k: Seq<char>, v: Seq<char>) -> Seq<char> {
    "export "@ + k + "='"@ + v + "'\n"@
}

/// View of a vector of (key, value) pairs as plain character sequences.
pub open spec fn spec_entry_views(es: Seq<(String, String)>) -> Seq<(Seq<char>, Seq<char>)> {
    es.map_values(|e: (String, String)| (e.0@, e.1@))
}

/// The whole cache file content for the given secrets: the export lines of
/// the kept entries, concatenated in order.
pub open spec fn spec_export_content(es: Seq<(Seq<char>, Seq<char>)>) -> Seq<char>
    decreases es.len(),
{
    if es.len() == 0 {
        Seq::empty()
    } else {
        spec_export_content(es.drop_last()) + (if spec_key_kept(es.last().0) {
            spec_export_line(es.last().0, es.last().1)
        } else {
            Seq::<char>::empty()
        })
    }
}

/// The entries whose keys do not carry the reserved prefix, in order.
pub open spec fn spec_kept_entries(es: Seq<(Seq<char>, Seq<char>)>) -> Seq<
    (Seq<char>, Seq<char>),
> {
    es.filter(|e: (Seq<char>, Seq<char>)| spec_key_kept(e.0))
}

/// The body of a kept secret's cache line, without the trailing newline.
pub open spec fn spec_line_body(k: Seq<char>, v: Seq<char>) -> Seq<char> {
    "export "@ + k + "='"@ + v + "'"@
}

/// `s` holds no newline character.
pub open spec fn spec_newline_free(s: Seq<char>) -> bool {
    forall|j: int| 0 <= j < s.len() ==> s[j] != '\n'
}

/// Splitting a text into newline-terminated lines: `cur` is the part of
/// the current line already read.
pub open spec fn spec_split_rec(s: Seq<char>, cur: Seq<char>) -> Seq<Seq<char>>
    decreases s.len(),
{
    if s.len() == 0 {
        if cur.len() == 0 {
            Seq::empty()
        } else {
            seq![cur]
        }
    } else if s[0] == '\n' {
        seq![cur] + spec_split_rec(s.skip(1), Seq::empty())
    } else {
        spec_split_rec(s.skip(1), cur.push(s[0]))
    }
}

/// The lines of a text, each without its terminating newline; a final
/// unterminated fragment counts as a line of its own.
pub open spec fn spec_lines_of(s: Seq<char>) -> Seq<Seq<char>> {
    spec_split_rec(s, Seq::empty())
}

/// Whether `s` starts with `p`, counted in characters.
pub fn has_prefix(s: &str, p: &str) -> (r: bool)
    ensures
        r == spec_has_prefix(s@, p@),
{
    let sl = s.unicode_len();
    let pl = p.unicode_len();
    if pl > sl {
        return false;
    }
    let mut i: usize = 0;
    while i < pl
        invariant
            0 <= i <= pl,
            pl <= sl,
            pl == p@.len(),
            sl == s@.len(),
            forall|j: int| 0 <= j < i ==> s@[j] == p@[j],
        decreases pl - i,
    {
        if s.get_char(i) != p.get_char(i) {
            proof {
                assert(s@.take(pl as int)[i as int] != p@[i as int]);
            }
            return false;
        }
        i = i + 1;
    }
    proof {
        assert(s@.take(pl as int) =~= p@);
    }
    true
}

/// Renders the shell-sourceable cache content: one `export KEY='VALUE'`
/// line, in order, for each secret whose key does not carry the reserved
/// prefix, and nothing for the keys that do.
pub fn render_exports(entries: &Vec<(String, String)>) -> (r: String)
    ensures
        r@ == spec_export_content(spec_entry_views(entries@)),
{
    let ghost views = spec_entry_views(entries@);
    let mut out = String::new();
    let mut i: usize = 0;
    while i < entries.len()
        invariant
            0 <= i <= entries@.len(),
            views == spec_entry_views(entries@),
            views.len() == entries@.len(),
            out@ == spec_export_content(views.take(i as int)),
        decreases entries@.len() - i,
    {
        let ghost before = out@;
        let k: &String = &entries[i].0;
        let v: &String = &entries[i].1;
        if !has_prefix(k.as_str(), "DOPPLER_") {
            out.append("export ");
            out.append(k.as_str());
            out.append("='");
            out.append(v.as_str());
            out.append("'\n");
            proof {
                assert(out@ =~= before + spec_export_line(k@, v@));
            }
        }
        proof {
            assert(views.take(i + 1 as int).drop_last() =~= views.take(i as int));
            assert(views.take(i + 1 as int).last() == views[i as int]);
            assert(views[i as int] == (k@, v@));
            assert(out@ =~= spec_export_content(views.take(i + 1 as int)));
        }
        i = i + 1;
    }
    proof {
        assert(views.take(entries@.len() as int) =~= views);
    }
    out
}

/// A concatenation of newline-free texts is newline-free.
proof fn lemma_newline_free_concat(a: Seq<char>, b: Seq<char>)
    requires
        spec_newline_free(a),
        spec_newline_free(b),
    ensures
        spec_newline_free(a + b),
{
    assert forall|j: int| 0 <= j < (a + b).len() implies (a + b)[j] != '\n' by {
        if j < a.len() {
            assert((a + b)[j] == a[j]);
        } else {
            assert((a + b)[j] == b[j - a.len()]);
        }
    }
}

/// Splitting peels one newline-terminated line off the front: reading a
/// newline-free body followed by a newline closes the current line.
proof fn lemma_split_rec_line(body: Seq<char>, tail: Seq<char>, cur: Seq<char>)
    requires
        spec_newline_free(body),
    ensures
        spec_split_rec(body + seq!['\n'] + tail, cur) == seq![cur + body] + spec_split_rec(
            tail,
            Seq::empty(),
        ),
    decreases body.len(),
{
    let s = body + seq!['\n'] + tail;
    if body.len() == 0 {
        assert(s =~= seq!['\n'] + tail);
        assert(s[0] == '\n');
        assert(s.skip(1) =~= tail);
        assert(seq![cur + body] =~~= seq![cur]);
    } else {
        assert(s[0] == body[0]);
        assert(body[0] != '\n');
        assert(s.skip(1) =~= body.skip(1) + seq!['\n'] + tail);
        assert(spec_newline_free(body.skip(1)));
        lemma_split_rec_line(body.skip(1), tail, cur.push(body[0]));
        assert(seq![cur.push(body[0]) + body.skip(1)] =~~= seq![cur + body]);
    }
}

/// Rendering distributes over concatenation of entry sequences.
proof fn lemma_content_concat(a: Seq<(Seq<char>, Seq<char>)>, b: Seq<(Seq<char>, Seq<char>)>)
    ensures
        spec_export_content(a + b) == spec_export_content(a) + spec_export_content(b),
    decreases b.len(),
{
    if b.len() == 0 {
        assert(a + b =~= a);
        assert(spec_export_content(a) + spec_export_content(b) =~= spec_export_content(a));
    } else {
        assert((a + b).drop_last() =~= a + b.drop_last());
        assert((a + b).last() == b.last());
        lemma_content_concat(a, b.drop_last());
        assert(spec_export_content(a + b) =~= spec_export_content(a) + spec_export_content(b));
    }
}

/// An export line is its body followed by one newline, and that body holds
/// no newline when neither the key nor the value does.
proof fn lemma_export_line_shape(k: Seq<char>, v: Seq<char>)
    requires
        spec_newline_free(k),
        spec_newline_free(v),
    ensures
        spec_export_line(k, v) == spec_line_body(k, v) + seq!['\n'],
        spec_newline_free(spec_line_body(k, v)),
{
    reveal_strlit("export ");
    reveal_strlit("='");
    reveal_strlit("'");
    reveal_strlit("'\n");
    assert("'\n"@ =~= "'"@ + seq!['\n']);
    assert(spec_export_line(k, v) =~= spec_line_body(k, v) + seq!['\n']);
    assert(spec_newline_free("export "@));
    assert(spec_newline_free("='"@));
    assert(spec_newline_free("'"@));
    lemma_newline_free_concat("export "@, k);
    lemma_newline_free_concat("export "@ + k, "='"@);
    lemma_newline_free_concat("export "@ + k + "='"@, v);
    lemma_newline_free_concat("export "@ + k + "='"@ + v, "'"@);
}

/// Reading the rendered cache content back as lines yields exactly one
/// line, in order, for each secret whose key does not carry the reserved
/// prefix, and no line at all for the keys that do. Holds whenever no key
/// or value contains a newline character.
pub proof fn lemma_content_reads_back(es: Seq<(Seq<char>, Seq<char>)>)
    requires
        forall|i: int| 0 <= i < es.len() ==> spec_newline_free((#[trigger] es[i]).0),
        forall|i: int| 0 <= i < es.len() ==> spec_newline_free((#[trigger] es[i]).1),
    ensures
        spec_lines_of(spec_export_content(es)) == spec_kept_entries(es).map_values(
            |e: (Seq<char>, Seq<char>)| spec_line_body(e.0, e.1),
        ),
        spec_lines_of(spec_export_content(es)).len() == spec_kept_entries(es).len(),
    decreases es.len(),
{
    reveal(Seq::filter);
    let f = |e: (Seq<char>, Seq<char>)| spec_key_kept(e.0);
    let g = |e: (Seq<char>, Seq<char>)| spec_line_body(e.0, e.1);
    if es.len() == 0 {
        assert(spec_kept_entries(es).map_values(g) =~~= Seq::<Seq<char>>::empty());
    } else {
        let e = es[0];
        let rest = es.skip(1);
        assert(es =~= seq![e] + rest);
        assert(forall|i: int| 0 <= i < rest.len() ==> (#[trigger] rest[i]) == es[i + 1]);
        lemma_content_reads_back(rest);
        lemma_content_concat(seq![e], rest);
        let empty_entries = Seq::<(Seq<char>, Seq<char>)>::empty();
        assert(seq![e].drop_last() =~= empty_entries);
        assert(seq![e].last() == e);
        assert(spec_export_content(empty_entries) == Seq::<char>::empty());
        assert(empty_entries.filter(f) == empty_entries);
        Seq::filter_distributes_over_add(seq![e], rest, f);
        assert(spec_kept_entries(es) == seq![e].filter(f) + spec_kept_entries(rest));
        lemma_export_line_shape(e.0, e.1);
        if spec_key_kept(e.0) {
            let body = spec_line_body(e.0, e.1);
            assert(seq![e].filter(f) =~= seq![e]);
            assert(spec_export_content(seq![e]) == spec_export_content(empty_entries)
                + spec_export_line(e.0, e.1));
            assert(spec_export_content(seq![e]) =~= body + seq!['\n']);
            assert(spec_export_content(es) =~= body + seq!['\n'] + spec_export_content(rest));
            lemma_split_rec_line(body, spec_export_content(rest), Seq::empty());
            assert(seq![Seq::<char>::empty() + body] =~~= seq![body]);
            assert(spec_kept_entries(es).map_values(g) =~~= seq![body] + spec_kept_entries(
                rest,
            ).map_values(g));
            assert(spec_lines_of(spec_export_content(es)) =~~= spec_kept_entries(es).map_values(
                g,
            ));
        } else {
            assert(seq![e].filter(f) =~= empty_entries);
            assert(spec_export_content(seq![e]) == spec_export_content(empty_entries)
                + Seq::<char>::empty());
            assert(spec_export_content(seq![e]) =~= Seq::<char>::empty());
            assert(spec_export_content(es) =~= spec_export_content(rest));
            assert(spec_kept_entries(es) =~= spec_kept_entries(rest));
        }
    }
}

} // verus!
