//! The list of hosts that may make cross-origin requests, as it is given
//! in the configuration: one text, the hosts separated by commas.

use vstd::prelude::*;
use vstd::string::StrSliceExecFns;

verus! {

/// The characters that count as white space around a host: those with the
/// Unicode property White_Space.
pub open spec fn is_white_space(c: char) -> bool {
    let code: u32 = c as u32;
    ||| 0x09 <= code <= 0x0D
    ||| code == 0x20
    ||| code == 0x85
    ||| code == 0xA0
    ||| code == 0x1680
    ||| 0x2000 <= code <= 0x200A
    ||| code == 0x2028
    ||| code == 0x2029
    ||| code == 0x202F
    ||| code == 0x205F
    ||| code == 0x3000
}

/// The text without the white space it starts with.
pub open spec fn trimmed_start(text: Seq<char>) -> Seq<char>
    decreases text.len(),
{
    if text.len() > 0 && is_white_space(text.first()) {
        trimmed_start(text.drop_first())
    } else {
        text
    }
}

/// The text without the white space it ends with.
pub open spec fn trimmed_end(text: Seq<char>) -> Seq<char>
    decreases text.len(),
{
    if text.len() > 0 && is_white_space(text.last()) {
        trimmed_end(text.drop_last())
    } else {
        text
    }
}

/// The text without the white space around it.
pub open spec fn trimmed(text: Seq<char>) -> Seq<char> {
    trimmed_end(trimmed_start(text))
}

/// The stretches of a text between its commas, in order. A text without a
/// comma is one stretch; two commas in a row, or a comma at either end,
/// give an empty stretch.
pub open spec fn pieces(text: Seq<char>) -> Seq<Seq<char>>
    decreases text.len(),
{
    if text.len() == 0 {
        seq![Seq::<char>::empty()]
    } else {
        let before = pieces(text.drop_last());
        if text.last() == ',' {
            before.push(Seq::<char>::empty())
        } else {
            before.drop_last().push(before.last().push(text.last()))
        }
    }
}

/// The hosts that a list names: its pieces, each without the white space
/// around it.
pub open spec fn origins_of(hosts: Seq<char>) -> Seq<Seq<char>> {
    pieces(hosts).map_values(|piece: Seq<char>| trimmed(piece))
}

/// The parts put together again, with a comma between each two.
pub open spec fn joined(parts: Seq<Seq<char>>) -> Seq<char>
    decreases parts.len(),
{
    if parts.len() == 0 {
        Seq::<char>::empty()
    } else if parts.len() == 1 {
        parts[0]
    } else {
        joined(parts.drop_last()).push(',') + parts.last()
    }
}

/// A text always has at least one piece.
proof fn lemma_pieces_not_empty(text: Seq<char>)
    ensures
        pieces(text).len() >= 1,
    decreases text.len(),
{
    if text.len() > 0 {
        lemma_pieces_not_empty(text.drop_last());
    }
}

/// The pieces of a text are what lies between its commas: there is at least
/// one, none holds a comma, and joined by commas they give the text back.
pub proof fn law_pieces_split_at_commas(text: Seq<char>)
    ensures
        pieces(text).len() >= 1,
        forall|i: int, j: int|
            0 <= i < pieces(text).len() && 0 <= j < pieces(text)[i].len() ==>
                #[trigger] pieces(text)[i][j] != ',',
        joined(pieces(text)) == text,
    decreases text.len(),
{
    if text.len() == 0 {
        assert(joined(pieces(text)) =~= text);
    } else {
        let shorter = text.drop_last();
        let before = pieces(shorter);
        let parts = pieces(text);
        law_pieces_split_at_commas(shorter);
        if text.last() == ',' {
            assert(parts.drop_last() =~= before);
            assert(joined(parts) =~= shorter.push(','));
            assert forall|i: int, j: int|
                0 <= i < parts.len() && 0 <= j < parts[i].len() implies
                #[trigger] parts[i][j] != ','
            by {
                assert(parts[i] == before[i]);
            }
        } else {
            let grown = before.last().push(text.last());
            assert(parts.last() == grown);
            assert(parts.drop_last() =~= before.drop_last());
            assert(joined(parts) =~= joined(before).push(text.last()));
            assert forall|i: int, j: int|
                0 <= i < parts.len() && 0 <= j < parts[i].len() implies
                #[trigger] parts[i][j] != ','
            by {
                if i < parts.len() - 1 {
                    assert(parts[i] == before[i]);
                } else if j < before.last().len() {
                    assert(parts[i][j] == before[i][j]);
                }
            }
        }
        assert(shorter.push(text.last()) =~= text);
    }
}

/// Leading white space can be dropped one stretch at a time.
proof fn lemma_trimmed_start_skips(text: Seq<char>, from: int)
    requires
        0 <= from <= text.len(),
        forall|i: int| 0 <= i < from ==> is_white_space(#[trigger] text[i]),
    ensures
        trimmed_start(text) == trimmed_start(text.skip(from)),
    decreases from,
{
    if from == 0 {
        assert(text.skip(0) =~= text);
    } else {
        assert(is_white_space(text[0]));
        assert(text.drop_first().skip(from - 1) =~= text.skip(from));
        assert forall|i: int| 0 <= i < from - 1 implies
            is_white_space(#[trigger] text.drop_first()[i])
        by {
            assert(text.drop_first()[i] == text[i + 1]);
        }
        lemma_trimmed_start_skips(text.drop_first(), from - 1);
    }
}

/// Trailing white space can be dropped one stretch at a time.
proof fn lemma_trimmed_end_takes(text: Seq<char>, to: int)
    requires
        0 <= to <= text.len(),
        forall|i: int| to <= i < text.len() ==> is_white_space(#[trigger] text[i]),
    ensures
        trimmed_end(text) == trimmed_end(text.take(to)),
    decreases text.len() - to,
{
    if to == text.len() {
        assert(text.take(to) =~= text);
    } else {
        assert(is_white_space(text[text.len() - 1]));
        assert(text.drop_last().take(to) =~= text.take(to));
        lemma_trimmed_end_takes(text.drop_last(), to);
    }
}

/// Whether the character is white space.
fn is_blank(c: char) -> (blank: bool)
    ensures
        blank == is_white_space(c),
{
    let code: u32 = c as u32;
    (0x09 <= code && code <= 0x0D)
        || code == 0x20
        || code == 0x85
        || code == 0xA0
        || code == 0x1680
        || (0x2000 <= code && code <= 0x200A)
        || code == 0x2028
        || code == 0x2029
        || code == 0x202F
        || code == 0x205F
        || code == 0x3000
}

/// The stretch of `text` from `from` up to `to`, without the white space
/// around it.
fn trimmed_stretch(text: &str, from: usize, to: usize) -> (host: String)
    requires
        from <= to <= text@.len(),
    ensures
        host@ == trimmed(text@.subrange(from as int, to as int)),
{
    let ghost piece = text@.subrange(from as int, to as int);
    let mut first: usize = from;
    while first < to && is_blank(text.get_char(first))
        invariant
            from <= first <= to <= text@.len(),
            forall|i: int| from <= i < first ==> is_white_space(#[trigger] text@[i]),
        decreases to - first,
    {
        first += 1;
    }
    let mut end: usize = to;
    while first < end && is_blank(text.get_char(end - 1))
        invariant
            first <= end <= to <= text@.len(),
            forall|i: int| end <= i < to ==> is_white_space(#[trigger] text@[i]),
        decreases end - first,
    {
        end -= 1;
    }
    proof {
        let start_trimmed = piece.skip(first - from);
        assert forall|i: int| 0 <= i < first - from implies is_white_space(#[trigger] piece[i]) by {
            assert(piece[i] == text@[from + i]);
        }
        lemma_trimmed_start_skips(piece, first - from);
        if first < to {
            assert(start_trimmed.first() == text@[first as int]);
            assert(trimmed_start(start_trimmed) == start_trimmed);
        } else {
            assert(start_trimmed.len() == 0);
        }
        assert(trimmed_start(piece) == start_trimmed);
        assert forall|i: int| end - first <= i < start_trimmed.len() implies
            is_white_space(#[trigger] start_trimmed[i])
        by {
            assert(start_trimmed[i] == text@[first + i]);
        }
        lemma_trimmed_end_takes(start_trimmed, end - first);
        let kept = start_trimmed.take(end - first);
        if first < end {
            assert(kept.last() == text@[end - 1]);
            assert(trimmed_end(kept) == kept);
        } else {
            assert(kept.len() == 0);
        }
        assert(kept =~= text@.subrange(first as int, end as int));
    }
    text.substring_char(first, end).to_owned()
}

/// The hosts named by a comma-separated list, each without the white space
/// around it, in the order of the list.
pub fn allowed_origins(hosts: &str) -> (origins: Vec<String>)
    ensures
        origins.deep_view() == origins_of(hosts@),
{
    let len: usize = hosts.unicode_len();
    let mut origins: Vec<String> = Vec::new();
    let mut start: usize = 0;
    let mut at: usize = 0;
    proof {
        assert(hosts@.take(0) =~= Seq::<char>::empty());
        assert(pieces(hosts@.take(0)).drop_last() =~= Seq::<Seq<char>>::empty());
        assert(hosts@.subrange(0, 0) =~= Seq::<char>::empty());
    }
    while at < len
        invariant
            start <= at <= len == hosts@.len(),
            origins.deep_view() == pieces(hosts@.take(at as int)).drop_last().map_values(
                |piece: Seq<char>| trimmed(piece),
            ),
            pieces(hosts@.take(at as int)).len() >= 1,
            pieces(hosts@.take(at as int)).last() == hosts@.subrange(start as int, at as int),
        decreases len - at,
    {
        let ghost seen = hosts@.take(at as int);
        let ghost more = hosts@.take(at + 1);
        proof {
            assert(more.drop_last() =~= seen);
            assert(more.last() == hosts@[at as int]);
            lemma_pieces_not_empty(more);
        }
        if hosts.get_char(at) == ',' {
            let host = trimmed_stretch(hosts, start, at);
            let ghost before = origins.deep_view();
            origins.push(host);
            start = at + 1;
            proof {
                assert(pieces(more) == pieces(seen).push(Seq::<char>::empty()));
                assert(pieces(more).drop_last() =~= pieces(seen));
                assert(origins.deep_view() =~= before.push(host@));
                assert(pieces(seen) =~= pieces(seen).drop_last().push(pieces(seen).last()));
                assert(origins.deep_view() =~= pieces(more).drop_last().map_values(
                    |piece: Seq<char>| trimmed(piece),
                ));
                assert(hosts@.subrange(start as int, at + 1) =~= Seq::<char>::empty());
            }
        } else {
            proof {
                assert(pieces(more) == pieces(seen).drop_last().push(
                    pieces(seen).last().push(hosts@[at as int]),
                ));
                assert(pieces(more).drop_last() =~= pieces(seen).drop_last());
                assert(hosts@.subrange(start as int, at + 1) =~= hosts@.subrange(
                    start as int,
                    at as int,
                ).push(hosts@[at as int]));
            }
        }
        at += 1;
    }
    let host = trimmed_stretch(hosts, start, len);
    let ghost before = origins.deep_view();
    origins.push(host);
    proof {
        assert(hosts@.take(len as int) =~= hosts@);
        assert(origins.deep_view() =~= before.push(host@));
        assert(pieces(hosts@) =~= pieces(hosts@).drop_last().push(pieces(hosts@).last()));
        assert(origins.deep_view() =~= origins_of(hosts@));
    }
    origins
}

} // verus!
