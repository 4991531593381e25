//! Text helpers, and the Unicode functions they rest on.

use vstd::prelude::*;

verus! {

/// The texts of a list of strings.
pub open spec fn texts(list: Seq<String>) -> Seq<Seq<char>> {
    list.map_values(|s: String| s@)
}

/// The extended grapheme clusters of a text.
pub uninterp spec fn grapheme_clusters(text: Seq<char>) -> Seq<Seq<char>>;

/// The number of terminal columns that a text takes.
pub uninterp spec fn display_width(text: Seq<char>) -> usize;

/// A byte count as text, in binary units.
pub uninterp spec fn byte_size_text(bytes: u64) -> Seq<char>;

/// Calls `UnicodeSegmentation::graphemes` for extended grapheme clusters and
/// takes each as a string. The clusters are a function of the text; none is
/// empty, and put together they are the text.
#[verifier::external_body]
pub(crate) fn graphemes(text: &str) -> (clusters: Vec<String>)
    ensures
        texts(clusters@) == grapheme_clusters(text@),
        texts(clusters@).flatten() == text@,
        forall|i: int| 0 <= i < clusters@.len() ==> (#[trigger] clusters@[i])@.len() > 0,
{
    unicode_segmentation::UnicodeSegmentation::graphemes(text, true).map(String::from).collect()
}

/// Calls `UnicodeWidthStr::width`: the displayed width of the text in columns,
/// a function of the text. A space takes one column, so that a text of nothing
/// but spaces takes as many columns as it has characters.
#[verifier::external_body]
pub(crate) fn width(text: &str) -> (columns: usize)
    ensures
        columns == display_width(text@),
        text@ == blank(text@.len()) ==> columns == text@.len(),
{
    unicode_width::UnicodeWidthStr::width(text)
}

/// Formats `ByteSize::b(bytes)`. The text is a function of the count; below one
/// KiB it is the count in decimal, a space and the letter B.
#[verifier::external_body]
pub(crate) fn format_byte_size(bytes: u64) -> (text: String)
    ensures
        text@ == byte_size_text(bytes),
        bytes < 1024 ==> text@ == decimal(bytes as nat) + seq![' ', 'B'],
{
    format!("{}", bytesize::ByteSize::b(bytes))
}

/// `String::push` appends one character.
pub assume_specification[ String::push ](text: &mut String, c: char)
    ensures
        final(text)@ == old(text)@.push(c),
;

pub open spec fn digit(d: nat) -> char {
    if d == 0 {
        '0'
    } else if d == 1 {
        '1'
    } else if d == 2 {
        '2'
    } else if d == 3 {
        '3'
    } else if d == 4 {
        '4'
    } else if d == 5 {
        '5'
    } else if d == 6 {
        '6'
    } else if d == 7 {
        '7'
    } else if d == 8 {
        '8'
    } else {
        '9'
    }
}

/// A number in decimal notation.
pub open spec fn decimal(n: nat) -> Seq<char>
    decreases n,
{
    if n < 10 {
        seq![digit(n)]
    } else {
        decimal(n / 10).push(digit(n % 10))
    }
}

fn digit_char(d: u64) -> (c: char)
    requires
        d < 10,
    ensures
        c == digit(d as nat),
{
    match d {
        0 => '0',
        1 => '1',
        2 => '2',
        3 => '3',
        4 => '4',
        5 => '5',
        6 => '6',
        7 => '7',
        8 => '8',
        _ => '9',
    }
}

/// Writes a number in decimal notation.
pub fn decimal_string(n: u64) -> (text: String)
    ensures
        text@ == decimal(n as nat),
    decreases n,
{
    if n < 10 {
        let mut text = String::new();
        text.push(digit_char(n));
        assert(text@ == seq![digit(n as nat)]);
        text
    } else {
        let mut text = decimal_string(n / 10);
        text.push(digit_char(n % 10));
        text
    }
}

/// A number is written with its digits from the highest to the lowest: the last
/// character is the digit of its ones, and the ones before write what is left
/// without them.
pub proof fn law_decimal_ends_in_ones(n: nat)
    ensures
        decimal(n).len() > 0,
        decimal(n).last() as int == '0' as int + n % 10,
        n < 10 ==> decimal(n).len() == 1,
        n >= 10 ==> decimal(n).drop_last() == decimal(n / 10),
{
    if n >= 10 {
        assert(decimal(n).drop_last() == decimal(n / 10));
    }
}

/// `n` spaces.
pub open spec fn blank(n: nat) -> Seq<char> {
    Seq::new(n, |i: int| ' ')
}

pub fn spaces(n: usize) -> (text: String)
    ensures
        text@ == blank(n as nat),
{
    let mut text = String::new();
    assert(text@ == blank(0));
    for i in 0..n
        invariant
            text@ == blank(i as nat),
    {
        text.push(' ');
        assert(text@ == blank((i + 1) as nat));
    }
    text
}

/// A text filled up with spaces to at least `width` characters.
pub open spec fn padded(text: Seq<char>, width: nat) -> Seq<char> {
    text + blank(if text.len() < width { (width - text.len()) as nat } else { 0 })
}

/// A padded text starts with the text itself, goes on with nothing but spaces, and
/// has `width` characters unless the text alone has more.
pub proof fn law_padding_only_adds_spaces(text: Seq<char>, width: nat)
    ensures
        blank(width).len() == width,
        forall|i: int| 0 <= i < width ==> #[trigger] blank(width)[i] == ' ',
        padded(text, width).len() == if text.len() < width { width } else { text.len() },
        padded(text, width).take(text.len() as int) == text,
        forall|i: int|
            text.len() <= i < padded(text, width).len() ==> #[trigger] padded(text, width)[i]
                == ' ',
{
    assert(padded(text, width).take(text.len() as int) == text);
}

/// Fills a text up with spaces to at least `width` characters.
pub fn pad_to(text: &str, width: usize) -> (filled: String)
    ensures
        filled@ == padded(text@, width as nat),
{
    let mut filled = text.to_owned();
    let fill = spaces(width.saturating_sub(text.unicode_len()));
    filled.append(fill.as_str());
    filled
}

/// Every tab replaced by two spaces.
pub open spec fn expand_tabs(text: Seq<char>) -> Seq<char>
    decreases text.len(),
{
    if text.len() == 0 {
        text
    } else if text.last() == '\t' {
        expand_tabs(text.drop_last()).push(' ').push(' ')
    } else {
        expand_tabs(text.drop_last()).push(text.last())
    }
}

/// Replaces every tab by two spaces.
pub fn tabs_to_spaces(input: String) -> (text: String)
    ensures
        text@ == expand_tabs(input@),
{
    let mut text = String::new();
    for c in it: input.as_str().chars()
        invariant
            it.seq() == input@,
            text@ == expand_tabs(input@.take(it.index() as int)),
    {
        assert(input@.take(it.index() + 1).drop_last() == input@.take(it.index() as int));
        if c == '\t' {
            text.push(' ');
            text.push(' ');
        } else {
            text.push(c);
        }
    }
    assert(input@.take(input@.len() as int) == input@);
    text
}

/// Every tab becomes two spaces, every other character stays, and each does so
/// wherever it stands.
pub proof fn law_tabs_become_two_spaces(a: Seq<char>, b: Seq<char>, c: char)
    ensures
        expand_tabs(a + b) == expand_tabs(a) + expand_tabs(b),
        expand_tabs(seq!['\t']) == seq![' ', ' '],
        c != '\t' ==> expand_tabs(seq![c]) == seq![c],
    decreases b.len(),
{
    reveal_with_fuel(expand_tabs, 2);
    assert(seq!['\t'].drop_last() == Seq::<char>::empty());
    assert(seq![c].drop_last() == Seq::<char>::empty());
    if b.len() == 0 {
        assert(a + b == a);
    } else {
        law_tabs_become_two_spaces(a, b.drop_last(), c);
        assert((a + b).drop_last() == a + b.drop_last());
        assert((a + b).last() == b.last());
    }
}

/// A text without tabs stays as it is.
pub proof fn law_expand_tabs_keeps_other_text(text: Seq<char>)
    requires
        !text.contains('\t'),
    ensures
        expand_tabs(text) == text,
    decreases text.len(),
{
    if text.len() > 0 {
        assert(text[text.len() - 1] == text.last());
        assert forall|c: char| text.drop_last().contains(c) implies text.contains(c) by {
            let i = choose|i: int| 0 <= i < text.drop_last().len() && text.drop_last()[i] == c;
            assert(text[i] == c);
        }
        law_expand_tabs_keeps_other_text(text.drop_last());
        assert(text.drop_last().push(text.last()) == text);
    }
}

pub open spec fn is_line_break(c: char) -> bool {
    c == '\n' || c == '\r'
}

/// The number of line break characters that a text starts with.
pub open spec fn leading_breaks(text: Seq<char>) -> nat
    decreases text.len(),
{
    if text.len() > 0 && is_line_break(text[0]) {
        1 + leading_breaks(text.skip(1))
    } else {
        0
    }
}

/// The text up to the line break characters that it ends in.
pub open spec fn without_trailing_breaks(text: Seq<char>) -> Seq<char>
    decreases text.len(),
{
    if text.len() > 0 && is_line_break(text.last()) {
        without_trailing_breaks(text.drop_last())
    } else {
        text
    }
}

/// A text without the line break characters at both its ends.
pub open spec fn trim_breaks(text: Seq<char>) -> Seq<char> {
    without_trailing_breaks(text.skip(leading_breaks(text) as int))
}

proof fn lemma_leading_breaks(text: Seq<char>)
    ensures
        leading_breaks(text) <= text.len(),
        forall|i: int| 0 <= i < leading_breaks(text) ==> is_line_break(#[trigger] text[i]),
        leading_breaks(text) < text.len() ==> !is_line_break(text[leading_breaks(text) as int]),
    decreases text.len(),
{
    if text.len() > 0 && is_line_break(text[0]) {
        let rest = text.skip(1);
        lemma_leading_breaks(rest);
        assert forall|i: int| 0 <= i < leading_breaks(text) implies is_line_break(
            #[trigger] text[i],
        ) by {
            if i > 0 {
                assert(text[i] == rest[i - 1]);
            }
        }
    }
}

proof fn lemma_trailing_breaks(text: Seq<char>)
    ensures
        without_trailing_breaks(text).len() <= text.len(),
        without_trailing_breaks(text) == text.take(without_trailing_breaks(text).len() as int),
        forall|i: int|
            without_trailing_breaks(text).len() <= i < text.len() ==> is_line_break(
                #[trigger] text[i],
            ),
        without_trailing_breaks(text).len() > 0 ==> !is_line_break(
            without_trailing_breaks(text).last(),
        ),
    decreases text.len(),
{
    if text.len() > 0 && is_line_break(text.last()) {
        let rest = text.drop_last();
        lemma_trailing_breaks(rest);
        let kept = without_trailing_breaks(text);
        assert(rest.take(kept.len() as int) == text.take(kept.len() as int));
        assert forall|i: int| kept.len() <= i < text.len() implies is_line_break(
            #[trigger] text[i],
        ) by {
            if i < rest.len() {
                assert(text[i] == rest[i]);
            }
        }
    } else {
        assert(text.take(text.len() as int) == text);
    }
}

/// Trimming a text leaves the part from `kept.0` up to `kept.1`. Nothing but line
/// feeds and carriage returns is cut off, and what is left neither starts nor ends
/// with one.
pub proof fn law_trimming_cuts_line_breaks(text: Seq<char>) -> (kept: (int, int))
    ensures
        0 <= kept.0 <= kept.1 <= text.len(),
        trim_breaks(text) == text.subrange(kept.0, kept.1),
        forall|i: int|
            0 <= i < kept.0 || kept.1 <= i < text.len() ==> (#[trigger] text[i]) == '\n'
                || text[i] == '\r',
        kept.0 < kept.1 ==> text[kept.0] != '\n' && text[kept.0] != '\r' && text[kept.1 - 1]
            != '\n' && text[kept.1 - 1] != '\r',
{
    let start = leading_breaks(text) as int;
    lemma_leading_breaks(text);
    let rest = text.skip(start);
    lemma_trailing_breaks(rest);
    let end = start + without_trailing_breaks(rest).len();
    assert(trim_breaks(text) == text.subrange(start, end));
    assert forall|i: int| 0 <= i < start || end <= i < text.len() implies (#[trigger] text[i])
        == '\n' || text[i] == '\r' by {
        if end <= i {
            assert(text[i] == rest[i - start]);
        }
    }
    if start < end {
        assert(text[start] == rest[0]);
        assert(text[end - 1] == without_trailing_breaks(rest).last());
    }
    (start, end)
}

/// Cuts the line break characters off both ends of a text.
pub fn trim_line_breaks(text: &str) -> (trimmed: &str)
    ensures
        trimmed@ == trim_breaks(text@),
{
    let len: usize = text.unicode_len();
    let mut start: usize = 0;
    assert(text@.skip(0) == text@);
    while start < len && (text.get_char(start) == '\n' || text.get_char(start) == '\r')
        invariant
            len == text@.len(),
            start <= len,
            leading_breaks(text@) == start + leading_breaks(text@.skip(start as int)),
        decreases len - start,
    {
        assert(text@.skip(start as int).skip(1) == text@.skip(start + 1));
        start = start + 1;
    }
    proof {
        assert(leading_breaks(text@.skip(start as int)) == 0);
    }
    let mut end: usize = len;
    assert(text@.subrange(start as int, len as int) == text@.skip(start as int));
    while end > start && (text.get_char(end - 1) == '\n' || text.get_char(end - 1) == '\r')
        invariant
            len == text@.len(),
            start <= end <= len,
            without_trailing_breaks(text@.subrange(start as int, end as int))
                == without_trailing_breaks(text@.skip(start as int)),
        decreases end,
    {
        assert(text@.subrange(start as int, end as int).drop_last() == text@.subrange(
            start as int,
            end - 1,
        ));
        end = end - 1;
    }
    text.substring_char(start, end)
}

/// The number of leading widths that fit into `columns` columns.
pub open spec fn leading_within(widths: Seq<usize>, columns: int) -> nat
    decreases widths.len(),
{
    if widths.len() > 0 && widths[0] <= columns {
        1 + leading_within(widths.skip(1), columns - widths[0])
    } else {
        0
    }
}

/// Counts the leading widths that fit into `columns` columns.
pub fn count_leading(widths: &Vec<usize>, columns: usize) -> (count: usize)
    ensures
        count == leading_within(widths@, columns as int),
        count <= widths@.len(),
{
    let mut remaining: usize = columns;
    let mut count: usize = 0;
    assert(widths@.skip(0) == widths@);
    while count < widths.len() && widths[count] <= remaining
        invariant
            count <= widths@.len(),
            leading_within(widths@, columns as int) == count + leading_within(
                widths@.skip(count as int),
                remaining as int,
            ),
        decreases widths@.len() - count,
    {
        assert(widths@.skip(count as int).skip(1) == widths@.skip(count + 1));
        remaining = remaining - widths[count];
        count = count + 1;
    }
    count
}

/// The text `rest` is what `text` ends in.
pub open spec fn is_suffix(rest: Seq<char>, text: Seq<char>) -> bool {
    exists|k: int| 0 <= k <= text.len() && rest == #[trigger] text.skip(k)
}

/// The part of a text behind its first `count` pieces.
pub fn skip_pieces<'a>(src: &'a str, pieces: &Vec<String>, count: usize) -> (rest: &'a str)
    requires
        texts(pieces@).flatten() == src@,
        count <= pieces@.len(),
    ensures
        rest@ == texts(pieces@).skip(count as int).flatten(),
        is_suffix(rest@, src@),
        count == 0 ==> rest@ == src@,
{
    let ghost all = texts(pieces@);
    let len: usize = src.unicode_len();
    let mut start: usize = 0;
    proof {
        assert(all.skip(0) == all);
        assert(src@.skip(0) == src@);
    }
    for i in 0..count
        invariant
            all == texts(pieces@),
            count <= pieces@.len(),
            len == src@.len(),
            start <= len,
            src@.skip(start as int) == all.skip(i as int).flatten(),
            i == 0 ==> start == 0,
    {
        let piece = pieces[i].as_str();
        let ghost before = src@.skip(start as int);
        proof {
            assert(all.skip(i as int)[0] == piece@);
            assert(all.skip(i as int).drop_first() == all.skip(i + 1));
            assert(before == piece@ + all.skip(i + 1).flatten());
            assert(before.skip(piece@.len() as int) == all.skip(i + 1).flatten());
            assert(before.skip(piece@.len() as int) == src@.skip(start + piece@.len()));
        }
        start = start + piece.unicode_len();
    }
    assert(src@.subrange(start as int, len as int) == src@.skip(start as int));
    src.substring_char(start, len)
}

/// The widths of a list of texts.
pub open spec fn widths_of(list: Seq<Seq<char>>) -> Seq<usize> {
    list.map_values(|text: Seq<char>| display_width(text))
}

/// Measures a list of texts.
pub fn measure(list: &Vec<String>) -> (widths: Vec<usize>)
    ensures
        widths@ == widths_of(texts(list@)),
{
    let mut widths: Vec<usize> = Vec::new();
    let ghost all = widths_of(texts(list@));
    for i in 0..list.len()
        invariant
            all == widths_of(texts(list@)),
            widths@ == all.take(i as int),
    {
        assert(texts(list@)[i as int] == list@[i as int]@);
        widths.push(width(list[i].as_str()));
        assert(all.take(i + 1) == all.take(i as int).push(all[i as int]));
    }
    assert(all.take(list@.len() as int) == all);
    widths
}

/// What is left of a text that was scrolled to the right by `columns`: the
/// grapheme clusters after the leading ones that fit into so many columns.
pub open spec fn scrolled(text: Seq<char>, columns: nat) -> Seq<char> {
    let clusters = grapheme_clusters(text);
    clusters.skip(leading_within(widths_of(clusters), columns as int) as int).flatten()
}

/// The columns of the first `n` clusters, each measured on its own.
pub open spec fn clusters_columns(clusters: Seq<Seq<char>>, n: int) -> int
    decreases n,
{
    if n <= 0 {
        0
    } else {
        clusters_columns(clusters, n - 1) + display_width(clusters[n - 1])
    }
}

proof fn lemma_leading_within(
    clusters: Seq<Seq<char>>,
    done: int,
    columns: int,
) -> (k: int)
    requires
        0 <= done <= clusters.len(),
        clusters_columns(clusters, done) <= columns,
    ensures
        done <= k <= clusters.len(),
        k == done + leading_within(
            widths_of(clusters).skip(done),
            columns - clusters_columns(clusters, done),
        ),
        clusters_columns(clusters, k) <= columns,
        k < clusters.len() ==> clusters_columns(clusters, k + 1) > columns,
    decreases clusters.len() - done,
{
    let widths = widths_of(clusters);
    let rest = widths.skip(done);
    let left = columns - clusters_columns(clusters, done);
    if done < clusters.len() {
        assert(rest[0] == display_width(clusters[done]));
        assert(rest.skip(1) == widths.skip(done + 1));
    }
    if done < clusters.len() && display_width(clusters[done]) <= left {
        lemma_leading_within(clusters, done + 1, columns)
    } else {
        done
    }
}

/// Scrolling a text by some columns drops its first `k` clusters and keeps all
/// others: as many as fit into so many columns, and not one less.
pub proof fn law_scrolling_drops_what_fits(text: Seq<char>, columns: nat) -> (k: int)
    ensures
        0 <= k <= grapheme_clusters(text).len(),
        scrolled(text, columns) == grapheme_clusters(text).skip(k).flatten(),
        clusters_columns(grapheme_clusters(text), k) <= columns,
        k < grapheme_clusters(text).len() ==> clusters_columns(grapheme_clusters(text), k + 1)
            > columns,
{
    let clusters = grapheme_clusters(text);
    assert(widths_of(clusters).skip(0) == widths_of(clusters));
    lemma_leading_within(clusters, 0, columns as int)
}

proof fn lemma_narrow_columns(clusters: Seq<Seq<char>>, n: int)
    requires
        0 <= n <= clusters.len(),
        forall|i: int| 0 <= i < clusters.len() ==> display_width(#[trigger] clusters[i]) == 1,
    ensures
        clusters_columns(clusters, n) == n,
    decreases n,
{
    if n > 0 {
        lemma_narrow_columns(clusters, n - 1);
        assert(display_width(clusters[n - 1]) == 1);
    }
}

/// A text whose clusters each take one column loses one cluster for every column
/// that it is scrolled by, until none is left.
pub proof fn law_scrolling_narrow_text(text: Seq<char>, columns: nat)
    requires
        forall|i: int|
            0 <= i < grapheme_clusters(text).len() ==> display_width(
                #[trigger] grapheme_clusters(text)[i],
            ) == 1,
    ensures
        scrolled(text, columns) == grapheme_clusters(text).skip(
            if columns <= grapheme_clusters(text).len() {
                columns as int
            } else {
                grapheme_clusters(text).len() as int
            },
        ).flatten(),
{
    let clusters = grapheme_clusters(text);
    let k = law_scrolling_drops_what_fits(text, columns);
    lemma_narrow_columns(clusters, k);
    if k < clusters.len() {
        lemma_narrow_columns(clusters, k + 1);
    }
}

/// The first grapheme cluster of a text takes no column.
pub open spec fn starts_without_width(text: Seq<char>) -> bool {
    let clusters = grapheme_clusters(text);
    clusters.len() > 0 && display_width(clusters[0]) == 0
}

/// Cuts the leading grapheme clusters that fit into `offset` columns off a
/// text. What is left is the text's end; scrolled by nothing, the text is left
/// whole unless it starts with a cluster that takes no column.
pub fn trim_offset(src: &str, offset: usize) -> (rest: &str)
    ensures
        rest@ == scrolled(src@, offset as nat),
        is_suffix(rest@, src@),
        offset == 0 && !starts_without_width(src@) ==> rest@ == src@,
        grapheme_clusters(src@).flatten() == src@,
        forall|i: int|
            0 <= i < grapheme_clusters(src@).len() ==> (#[trigger] grapheme_clusters(
                src@,
            )[i]).len() > 0,
{
    let clusters = graphemes(src);
    assert forall|i: int| 0 <= i < grapheme_clusters(src@).len() implies (
    #[trigger] grapheme_clusters(src@)[i]).len() > 0 by {
        assert(texts(clusters@)[i] == clusters@[i]@);
    }
    let widths = measure(&clusters);
    assert(widths@.len() == clusters@.len());
    let count: usize = count_leading(&widths, offset);
    skip_pieces(src, &clusters, count)
}

/// The texts of a list of strings are those of its strings, in order.
pub proof fn law_texts_are_those_of_strings(list: Seq<String>, i: int)
    ensures
        texts(list).len() == list.len(),
        0 <= i < list.len() ==> texts(list)[i] == list[i]@,
{
}

} // verus!
