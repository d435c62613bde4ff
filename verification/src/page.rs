//! Script texts and addresses that the host prepares around a fetched page.

use vstd::prelude::*;
use vstd::string::*;

verus! {

/// What comes before the page's markup in the script that loads it.
pub open spec fn document_script_head() -> Seq<char> {
    "(function () { let html = linkedom.parseHTML(`"@
}

/// What comes after the page's markup in the script that loads it.
pub open spec fn document_script_tail() -> Seq<char> {
    "`); globalThis.document = html.document; globalThis.window = html.window; return html.document.title; })()"@
}

/// The script that parses `html`, publishes its document and window as
/// globals, and evaluates to the document's title. The markup is placed
/// between the backticks as it is.
pub fn document_script(html: &str) -> (script: String)
    ensures
        script@ == document_script_head() + html@ + document_script_tail(),
{
    let mut script = String::from_str("(function () { let html = linkedom.parseHTML(`");
    script.append(html);
    script.append(
        "`); globalThis.document = html.document; globalThis.window = html.window; return html.document.title; })()",
    );
    script
}

/// What comes before the text in the script that fills the search box.
pub open spec fn search_script_head() -> Seq<char> {
    "document.querySelector('#searchbox').value = '"@
}

/// The script that sets the search box's value to `text`, placed between
/// single quotes as it is.
pub fn search_script(text: &str) -> (script: String)
    ensures
        script@ == search_script_head() + text@ + "'"@,
{
    let mut script = String::from_str("document.querySelector('#searchbox').value = '");
    script.append(text);
    script.append("'");
    script
}

/// The pieces of `text` between its commas, in order. A text without a comma
/// is one piece; two commas in a row, or a comma at either end, give an empty
/// piece.
pub open spec fn split_at_commas(text: Seq<char>) -> Seq<Seq<char>>
    decreases text.len(),
{
    if text.len() == 0 {
        seq![Seq::empty()]
    } else {
        let before = split_at_commas(text.drop_last());
        if text.last() == ',' {
            before.push(Seq::empty())
        } else {
            before.drop_last().push(before.last().push(text.last()))
        }
    }
}

/// There is always at least one piece.
pub proof fn lemma_split_nonempty(text: Seq<char>)
    ensures
        split_at_commas(text).len() >= 1,
    decreases text.len(),
{
    if text.len() > 0 {
        lemma_split_nonempty(text.drop_last());
    }
}

/// The pieces written one after the other with a comma between neighbours.
pub open spec fn join_with_commas(pieces: Seq<Seq<char>>) -> Seq<char>
    decreases pieces.len(),
{
    if pieces.len() == 0 {
        Seq::empty()
    } else if pieces.len() == 1 {
        pieces[0]
    } else {
        join_with_commas(pieces.drop_last()) + seq![','] + pieces.last()
    }
}

/// No piece of a split text holds a comma.
pub proof fn lemma_pieces_hold_no_comma(text: Seq<char>)
    ensures
        forall|k: int|
            0 <= k < split_at_commas(text).len() ==> !(#[trigger] split_at_commas(text)[k]).contains(
                ',',
            ),
    decreases text.len(),
{
    let pieces = split_at_commas(text);
    if text.len() > 0 {
        let before = split_at_commas(text.drop_last());
        lemma_pieces_hold_no_comma(text.drop_last());
        lemma_split_nonempty(text.drop_last());
        assert forall|k: int| 0 <= k < pieces.len() implies !(#[trigger] pieces[k]).contains(
            ',',
        ) by {
            if pieces[k].contains(',') {
                let j = choose|j: int| 0 <= j < pieces[k].len() && pieces[k][j] == ',';
                if k < before.len() - 1 {
                    assert(pieces[k] == before[k]);
                } else if text.last() == ',' {
                    if k < before.len() {
                        assert(pieces[k] == before[k]);
                    }
                } else {
                    assert(pieces[k] == before.last().push(text.last()));
                    assert(j < before.last().len());
                    assert(before.last()[j] == ',');
                    assert(before[before.len() - 1].contains(','));
                }
            }
        }
    } else {
        assert(!pieces[0].contains(','));
    }
}

/// Joining the pieces of a text with commas gives the text back.
pub proof fn lemma_join_of_split(text: Seq<char>)
    ensures
        join_with_commas(split_at_commas(text)) == text,
    decreases text.len(),
{
    let pieces = split_at_commas(text);
    if text.len() == 0 {
        assert(join_with_commas(pieces) =~= text);
    } else {
        let before = split_at_commas(text.drop_last());
        lemma_join_of_split(text.drop_last());
        lemma_split_nonempty(text.drop_last());
        assert(text.drop_last().push(text.last()) =~= text);
        if text.last() == ',' {
            assert(pieces.drop_last() =~= before);
            assert(join_with_commas(pieces) =~= text);
        } else if before.len() == 1 {
            assert(pieces[0] == before[0].push(text.last()));
            assert(join_with_commas(before) == before[0]);
            assert(join_with_commas(pieces) =~= text);
        } else {
            assert(pieces.drop_last() =~= before.drop_last());
            assert(pieces.last() == before.last().push(text.last()));
            assert(join_with_commas(pieces) =~= join_with_commas(before).push(text.last()));
        }
    }
}

/// A text to which a comma-free text is appended splits as before, with the
/// appended text at the end of the last piece.
pub proof fn lemma_split_append(text: Seq<char>, tail: Seq<char>)
    requires
        !tail.contains(','),
    ensures
        split_at_commas(text + tail) == split_at_commas(text).drop_last().push(
            split_at_commas(text).last() + tail,
        ),
    decreases tail.len(),
{
    let pieces = split_at_commas(text);
    lemma_split_nonempty(text);
    if tail.len() == 0 {
        assert(text + tail =~= text);
        assert(pieces.last() + tail =~= pieces.last());
        assert(pieces.drop_last().push(pieces.last()) =~= pieces);
    } else {
        let shorter = tail.drop_last();
        assert(tail[tail.len() - 1] == tail.last());
        assert(tail.last() != ',');
        assert forall|j: int| 0 <= j < shorter.len() implies shorter[j] != ',' by {
            assert(tail[j] == shorter[j]);
        }
        lemma_split_append(text, shorter);
        let whole = text + tail;
        assert(whole.drop_last() =~= text + shorter);
        assert(whole.last() == tail.last());
        let before = split_at_commas(text + shorter);
        assert(before.drop_last() =~= pieces.drop_last());
        assert(before.last() == pieces.last() + shorter);
        assert((pieces.last() + shorter).push(tail.last()) =~= pieces.last() + tail);
    }
}

/// Comma-free pieces, at least one of them, are the pieces of their joining:
/// together with the two lemmas above, splitting is the one inverse of
/// joining.
pub proof fn lemma_split_of_join(pieces: Seq<Seq<char>>)
    requires
        pieces.len() >= 1,
        forall|k: int| 0 <= k < pieces.len() ==> !(#[trigger] pieces[k]).contains(','),
    ensures
        split_at_commas(join_with_commas(pieces)) == pieces,
    decreases pieces.len(),
{
    let empty = Seq::<char>::empty();
    if pieces.len() == 1 {
        lemma_split_append(empty, pieces[0]);
        assert(empty + pieces[0] =~= pieces[0]);
        assert(split_at_commas(empty) =~= seq![empty]);
        assert(seq![empty].drop_last().push(empty + pieces[0]) =~= pieces);
    } else {
        let front = pieces.drop_last();
        assert forall|k: int| 0 <= k < front.len() implies !(#[trigger] front[k]).contains(
            ',',
        ) by {
            assert(front[k] == pieces[k]);
        }
        lemma_split_of_join(front);
        let opened = join_with_commas(front) + seq![','];
        assert(opened.drop_last() =~= join_with_commas(front));
        assert(opened.last() == ',');
        assert(split_at_commas(opened) == front.push(empty));
        assert(pieces[pieces.len() - 1] == pieces.last());
        lemma_split_append(opened, pieces.last());
        assert(front.push(empty).drop_last() =~= front);
        assert(empty + pieces.last() =~= pieces.last());
        assert(front.push(pieces.last()) =~= pieces);
    }
}

/// The texts that a sequence of strings holds.
pub open spec fn texts(strings: Seq<String>) -> Seq<Seq<char>> {
    Seq::new(strings.len(), |k: int| strings[k]@)
}

/// Splits `list` at its commas.
pub fn split_list(list: &str) -> (pieces: Vec<String>)
    ensures
        texts(pieces@) == split_at_commas(list@),
{
    let n = list.unicode_len();
    let mut pieces: Vec<String> = Vec::new();
    let mut start: usize = 0;
    let mut i: usize = 0;
    proof {
        assert(list@.take(0).len() == 0);
        assert(list@.subrange(0, 0) =~= Seq::<char>::empty());
        assert(split_at_commas(list@.take(0)) =~= texts(pieces@).push(list@.subrange(0, 0)));
    }
    while i < n
        invariant
            start <= i <= n,
            n == list@.len(),
            split_at_commas(list@.take(i as int)) == texts(pieces@).push(
                list@.subrange(start as int, i as int),
            ),
        decreases n - i,
    {
        let c = list.get_char(i);
        let ghost done = texts(pieces@);
        let ghost current = list@.subrange(start as int, i as int);
        proof {
            let next = list@.take(i + 1);
            assert(next.drop_last() =~= list@.take(i as int));
            assert(next.last() == c);
            assert(done.push(current).drop_last() =~= done);
            assert(done.push(current).last() == current);
        }
        if c == ',' {
            pieces.push(String::from_str(list.substring_char(start, i)));
            start = i + 1;
            proof {
                assert(texts(pieces@) =~= done.push(current));
                assert(list@.subrange(i + 1, i + 1) =~= Seq::<char>::empty());
            }
        } else {
            assert(current.push(c) =~= list@.subrange(start as int, i + 1));
        }
        i += 1;
    }
    assert(list@.take(n as int) =~= list@);
    let ghost done = texts(pieces@);
    pieces.push(String::from_str(list.substring_char(start, n)));
    proof {
        assert(texts(pieces@) =~= done.push(list@.subrange(start as int, n as int)));
    }
    pieces
}

/// Whether a character is whitespace, as `char::is_whitespace` tells: the
/// characters of Unicode's property `White_Space`.
pub uninterp spec fn white_space(c: char) -> bool;

/// Calls `char::is_whitespace`. The result is named, not described: it
/// depends on the character alone, and the table behind it is Unicode's.
#[verifier::external_body]
fn is_whitespace(c: char) -> (yes: bool)
    ensures
        yes == white_space(c),
{
    c.is_whitespace()
}

/// The text without its leading and trailing whitespace.
pub open spec fn trimmed(text: Seq<char>) -> Seq<char>
    decreases text.len(),
{
    if text.len() > 0 && white_space(text.first()) {
        trimmed(text.drop_first())
    } else if text.len() > 0 && white_space(text.last()) {
        trimmed(text.drop_last())
    } else {
        text
    }
}

/// Whether `from` and `to` bound the part of `text` that trimming keeps:
/// all before and all after it is whitespace, and the part, unless empty,
/// begins and ends with a character that is not.
pub open spec fn bounds_of_trimmed(text: Seq<char>, from: int, to: int) -> bool {
    &&& 0 <= from <= to <= text.len()
    &&& forall|k: int| 0 <= k < from ==> white_space(#[trigger] text[k])
    &&& forall|k: int| to <= k < text.len() ==> white_space(#[trigger] text[k])
    &&& from < to ==> !white_space(text[from]) && !white_space(text[to - 1])
}

/// The trimmed text is one part of the text, with whitespace alone around it
/// and none at its own two ends. The bounds of that part are returned.
pub proof fn lemma_trimmed_bounds(text: Seq<char>) -> (bounds: (int, int))
    ensures
        bounds_of_trimmed(text, bounds.0, bounds.1),
        trimmed(text) == text.subrange(bounds.0, bounds.1),
    decreases text.len(),
{
    if text.len() > 0 && white_space(text.first()) {
        let rest = text.drop_first();
        let (from, to) = lemma_trimmed_bounds(rest);
        assert(rest.subrange(from, to) =~= text.subrange(from + 1, to + 1));
        assert forall|k: int| 0 <= k < from + 1 implies white_space(#[trigger] text[k]) by {
            if k > 0 {
                assert(text[k] == rest[k - 1]);
            }
        }
        assert forall|k: int| to + 1 <= k < text.len() implies white_space(#[trigger] text[k]) by {
            assert(text[k] == rest[k - 1]);
        }
        if from < to {
            assert(text[from + 1] == rest[from]);
            assert(text[to] == rest[to - 1]);
        }
        (from + 1, to + 1)
    } else if text.len() > 0 && white_space(text.last()) {
        let rest = text.drop_last();
        let (from, to) = lemma_trimmed_bounds(rest);
        assert(rest.subrange(from, to) =~= text.subrange(from, to));
        assert(rest[0] == text[0]);
        assert forall|k: int| 0 <= k < from implies white_space(#[trigger] text[k]) by {
            assert(text[k] == rest[k]);
        }
        assert forall|k: int| to <= k < text.len() implies white_space(#[trigger] text[k]) by {
            if k < rest.len() {
                assert(text[k] == rest[k]);
            }
        }
        if from < to {
            assert(text[from] == rest[from]);
            assert(text[to - 1] == rest[to - 1]);
        }
        (from, to)
    } else {
        assert(text.subrange(0, text.len() as int) =~= text);
        (0, text.len() as int)
    }
}

/// Returns `text` without its leading and trailing whitespace.
pub fn trim(text: &str) -> (inner: &str)
    ensures
        inner@ == trimmed(text@),
{
    let n = text.unicode_len();
    assert(text@.subrange(0, n as int) =~= text@);
    let mut from: usize = 0;
    while from < n && is_whitespace(text.get_char(from))
        invariant
            from <= n,
            n == text@.len(),
            trimmed(text@) == trimmed(text@.subrange(from as int, n as int)),
        decreases n - from,
    {
        assert(text@.subrange(from as int, n as int).drop_first() =~= text@.subrange(
            from + 1,
            n as int,
        ));
        from += 1;
    }
    let mut to: usize = n;
    while to > from && is_whitespace(text.get_char(to - 1))
        invariant
            from <= to <= n,
            n == text@.len(),
            from < n ==> !white_space(text@[from as int]),
            trimmed(text@) == trimmed(text@.subrange(from as int, to as int)),
        decreases to - from,
    {
        assert(text@.subrange(from as int, to as int).drop_last() =~= text@.subrange(
            from as int,
            to - 1,
        ));
        to -= 1;
    }
    text.substring_char(from, to)
}

/// The address of a script: `path` appended to `origin` as it is.
pub fn script_url(origin: &str, path: &str) -> (url: String)
    ensures
        url@ == origin@ + path@,
{
    let mut url = String::from_str(origin);
    url.append(path);
    url
}

/// The addresses for the pieces of a script list: empty pieces are passed
/// over, and each other piece is trimmed and appended to `origin`. A piece of
/// whitespace alone is not empty: it gives `origin` itself.
pub open spec fn urls_of_pieces(origin: Seq<char>, pieces: Seq<Seq<char>>) -> Seq<Seq<char>> {
    pieces.filter(|piece: Seq<char>| piece.len() > 0).map_values(
        |piece: Seq<char>| origin + trimmed(piece),
    )
}

/// The addresses of the scripts named in `list`, a comma-separated list of
/// paths, in the order of the list.
pub fn script_urls(origin: &str, list: &str) -> (urls: Vec<String>)
    ensures
        texts(urls@) == urls_of_pieces(origin@, split_at_commas(list@)),
{
    let pieces = split_list(list);
    let ghost split = split_at_commas(list@);
    let mut urls: Vec<String> = Vec::new();
    let mut i: usize = 0;
    proof {
        reveal(Seq::filter);
        assert(split.take(0) =~= Seq::<Seq<char>>::empty());
        assert(texts(urls@) =~= urls_of_pieces(origin@, split.take(0)));
    }
    while i < pieces.len()
        invariant
            i <= pieces.len(),
            texts(pieces@) == split,
            texts(urls@) == urls_of_pieces(origin@, split.take(i as int)),
        decreases pieces.len() - i,
    {
        let piece = pieces[i].as_str();
        let ghost before = urls@;
        proof {
            reveal(Seq::filter);
            assert(split.len() == pieces.len());
            assert(split[i as int] == piece@);
            assert(split.take(i + 1).drop_last() =~= split.take(i as int));
            assert(split.take(i + 1).last() == piece@);
        }
        if !piece.is_empty() {
            let url = script_url(origin, trim(piece));
            urls.push(url);
            assert(texts(urls@) =~= texts(before).push(origin@ + trimmed(piece@)));
            assert(texts(urls@) =~= urls_of_pieces(origin@, split.take(i + 1)));
        }
        i += 1;
    }
    assert(split.take(pieces.len() as int) =~= split);
    urls
}

} // verus!
