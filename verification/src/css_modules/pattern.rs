//! Class name patterns: the template language, its parser and its renderer.

use smallvec::SmallVec;
use vstd::prelude::*;
use vstd::string::*;

verus! {

/// A segment in a CSS modules class name pattern.
///
/// See [Pattern](Pattern).
#[derive(Clone, Debug)]
pub enum Segment<'i> {
    /// A literal string segment.
    Literal(&'i str),
    /// The base file name.
    Name,
    /// The original class name.
    Local,
    /// A hash of the file name.
    Hash,
}

/// The mathematical value of a [`Segment`].
pub enum SegmentView {
    Literal(Seq<char>),
    Name,
    Local,
    Hash,
}

impl<'i> View for Segment<'i> {
    type V = SegmentView;

    open spec fn view(&self) -> SegmentView {
        match *self {
            Segment::Literal(text) => SegmentView::Literal(text@),
            Segment::Name => SegmentView::Name,
            Segment::Local => SegmentView::Local,
            Segment::Hash => SegmentView::Hash,
        }
    }
}

/// The segments of a pattern in order: a `smallvec::SmallVec`, which stores them inline
/// while there are at most two. What it holds is known only as [`segment_seq`] and
/// through the functions below, each of which makes one call on the vector.
#[verifier::external_body]
#[derive(Debug)]
pub struct SegmentList<'i> {
    inner: SmallVec<[Segment<'i>; 2]>,
}

/// The segments that a [`SegmentList`] holds, first to last.
pub uninterp spec fn segment_seq(list: SegmentList<'_>) -> Seq<Segment<'_>>;

/// `SmallVec::new`: the new vector holds nothing.
#[verifier::external_body]
fn segments_new<'i>() -> (list: SegmentList<'i>)
    ensures
        segment_seq(list) == Seq::<Segment<'i>>::empty(),
{
    SegmentList { inner: SmallVec::new() }
}

/// `SmallVec::push`: the value is appended after the items already held.
#[verifier::external_body]
fn segments_push<'i>(list: &mut SegmentList<'i>, segment: Segment<'i>)
    ensures
        segment_seq(*final(list)) == segment_seq(*old(list)).push(segment),
{
    list.inner.push(segment)
}

/// `SmallVec::len`: the number of items held.
#[verifier::external_body]
fn segments_len(list: &SegmentList<'_>) -> (n: usize)
    ensures
        n == segment_seq(*list).len(),
{
    list.inner.len()
}

/// Indexing a `SmallVec` through its slice: the item at position `i`.
#[verifier::external_body]
fn segments_get<'a, 'i>(list: &'a SegmentList<'i>, i: usize) -> (segment: &'a Segment<'i>)
    requires
        i < segment_seq(*list).len(),
    ensures
        *segment == segment_seq(*list)[i as int],
{
    &list.inner[i]
}

/// `SmallVec::clone`: the copy holds clones of the items in the same order.
/// A segment is a tag and at most a borrowed string, so its clone is itself.
#[verifier::external_body]
fn segments_clone<'i>(list: &SegmentList<'i>) -> (copy: SegmentList<'i>)
    ensures
        segment_seq(copy) == segment_seq(*list),
{
    SegmentList { inner: list.inner.clone() }
}

/// The views of a sequence of segments.
pub open spec fn segment_views(segments: Seq<Segment<'_>>) -> Seq<SegmentView> {
    Seq::new(segments.len(), |i: int| segments[i]@)
}

/// The text `[name]`.
pub open spec fn name_token() -> Seq<char> {
    seq!['[', 'n', 'a', 'm', 'e', ']']
}

/// The text `[local]`.
pub open spec fn local_token() -> Seq<char> {
    seq!['[', 'l', 'o', 'c', 'a', 'l', ']']
}

/// The text `[hash]`.
pub open spec fn hash_token() -> Seq<char> {
    seq!['[', 'h', 'a', 's', 'h', ']']
}

/// The segment that a bracketed token stands for, if it is one of the three known tokens.
/// The match is case-sensitive and takes the brackets into account.
pub open spec fn token_segment(token: Seq<char>) -> Option<SegmentView> {
    if token == name_token() {
        Some(SegmentView::Name)
    } else if token == local_token() {
        Some(SegmentView::Local)
    } else if token == hash_token() {
        Some(SegmentView::Hash)
    } else {
        None
    }
}

/// The length of the longest prefix of `text` in which `c` does not occur.
pub open spec fn prefix_without(text: Seq<char>, c: char) -> nat
    decreases text.len(),
{
    if text.len() == 0 || text[0] == c {
        0
    } else {
        1 + prefix_without(text.drop_first(), c)
    }
}

/// The prefix is no longer than the text, and not empty where the text starts otherwise.
pub proof fn lemma_prefix_without_bound(text: Seq<char>, c: char)
    ensures
        prefix_without(text, c) <= text.len(),
        text.len() > 0 && text[0] != c ==> prefix_without(text, c) >= 1,
    decreases text.len(),
{
    if text.len() > 0 && text[0] != c {
        lemma_prefix_without_bound(text.drop_first(), c);
    }
}

/// `front` put in front of a parse of the rest, where the rest parsed at all.
pub open spec fn prepend_segments(
    front: Seq<SegmentView>,
    rest: Option<Seq<SegmentView>>,
) -> Option<Seq<SegmentView>> {
    match rest {
        Some(segments) => Some(front + segments),
        None => None,
    }
}

/// What a template string means: its segments, or `None` where a bracketed token is
/// unknown or is never closed.
///
/// The template is read left to right. A `[` opens a token that ends at the next `]`;
/// any other character opens a literal that runs up to the next `[` or the end.
pub open spec fn parse_template(template: Seq<char>) -> Option<Seq<SegmentView>>
    decreases template.len(),
{
    if template.len() == 0 {
        Some(Seq::empty())
    } else if template[0] == '[' {
        let end = prefix_without(template, ']');
        if end >= template.len() {
            None
        } else {
            match token_segment(template.take(end as int + 1)) {
                Some(segment) => prepend_segments(
                    seq![segment],
                    parse_template(template.skip(end as int + 1)),
                ),
                None => None,
            }
        }
    } else {
        let end = prefix_without(template, '[');
        proof {
            lemma_prefix_without_bound(template, '[');
        }
        prepend_segments(
            seq![SegmentView::Literal(template.take(end as int))],
            parse_template(template.skip(end as int)),
        )
    }
}

/// The text that one segment stands for, given the texts of the three tokens.
pub open spec fn segment_text(
    segment: SegmentView,
    name: Seq<char>,
    local: Seq<char>,
    hash: Seq<char>,
) -> Seq<char> {
    match segment {
        SegmentView::Literal(text) => text,
        SegmentView::Name => name,
        SegmentView::Local => local,
        SegmentView::Hash => hash,
    }
}

/// The texts of the segments, concatenated in order.
pub open spec fn render_segments(
    segments: Seq<SegmentView>,
    name: Seq<char>,
    local: Seq<char>,
    hash: Seq<char>,
) -> Seq<char>
    decreases segments.len(),
{
    if segments.len() == 0 {
        Seq::empty()
    } else {
        render_segments(segments.drop_last(), name, local, hash) + segment_text(
            segments.last(),
            name,
            local,
            hash,
        )
    }
}

/// The compiled name that a pattern gives to `local` in a source whose hash is `hash`
/// and whose base name is `name`: literal text verbatim, `name` for each `Name`
/// segment, `local` for each `Local` segment and `hash` for each `Hash` segment.
pub open spec fn compiled_name(
    segments: Seq<SegmentView>,
    hash: Seq<char>,
    local: Seq<char>,
    name: Seq<char>,
) -> Seq<char> {
    render_segments(segments, name, local, hash)
}

/// The position after the last `c` in `text`, or 0 where `c` does not occur.
pub open spec fn after_last(text: Seq<char>, c: char) -> nat
    decreases text.len(),
{
    if text.len() == 0 {
        0
    } else if text.last() == c {
        text.len()
    } else {
        after_last(text.drop_last(), c)
    }
}

/// The file name of a path: what follows its last `/`.
pub open spec fn file_name_of(path: Seq<char>) -> Seq<char> {
    path.skip(after_last(path, '/') as int)
}

/// The base name of a source file, which the `Name` segment stands for: the file name
/// without the directories before it and without its last extension. A file name
/// that holds no `.`, or none but a leading one, has no extension and is its own base
/// name.
pub open spec fn base_name_of(path: Seq<char>) -> Seq<char> {
    let file = file_name_of(path);
    let end = after_last(file, '.');
    if end >= 2 {
        file.take(end - 1)
    } else {
        file
    }
}

/// The template that a sequence of segments is written as.
pub open spec fn template_text(segments: Seq<SegmentView>) -> Seq<char> {
    render_segments(segments, name_token(), local_token(), hash_token())
}

/// The segments of the pattern used where none is configured: the hash, an underscore,
/// the local name. The hash comes first so that a compiled name never starts with what
/// the original name starts with.
pub open spec fn default_segments() -> Seq<SegmentView> {
    seq![SegmentView::Hash, SegmentView::Literal(seq!['_']), SegmentView::Local]
}

/// Whether a sequence of segments is one that a template can parse to: no literal is
/// empty or holds a `[`, and no literal follows another.
pub open spec fn is_canonical(segments: Seq<SegmentView>) -> bool {
    &&& forall|i: int|
        0 <= i < segments.len() ==> (#[trigger] segments[i] matches SegmentView::Literal(text)
            ==> text.len() > 0 && !text.contains('['))
    &&& forall|i: int|
        0 <= i < segments.len() - 1 ==> !((#[trigger] segments[i]) is Literal && segments[i
            + 1] is Literal)
}

/// A CSS modules class name pattern.
#[derive(Debug)]
pub struct Pattern<'i> {
    segments: SegmentList<'i>,
}

impl<'i> View for Pattern<'i> {
    type V = Seq<SegmentView>;

    closed spec fn view(&self) -> Seq<SegmentView> {
        segment_views(segment_seq(self.segments))
    }
}

/// Configuration for CSS modules.
#[derive(Debug)]
pub struct Config<'i> {
    /// The pattern by which local names are compiled.
    pub pattern: Pattern<'i>,
}

/// The characters of `s`, one by one.
fn chars_of(s: &str) -> (chars: Vec<char>)
    ensures
        chars@ == s@,
{
    let mut chars: Vec<char> = Vec::new();
    for c in it: s.chars()
        invariant
            chars@ == it.seq().take(it.index() as int),
            it.seq() == s@,
    {
        chars.push(c);
    }
    chars
}

/// `prefix_without` is the first position of `c`, or the length where there is none.
proof fn lemma_prefix_without(text: Seq<char>, c: char, k: nat)
    requires
        k <= text.len(),
        forall|j: int| 0 <= j < k ==> text[j] != c,
        k == text.len() || text[k as int] == c,
    ensures
        prefix_without(text, c) == k,
    decreases k,
{
    if k > 0 {
        lemma_prefix_without(text.drop_first(), c, (k - 1) as nat);
    }
}

/// The first position at or after `from` that holds `c`, or the length where none does.
fn find_from(chars: &Vec<char>, from: usize, c: char) -> (end: usize)
    requires
        from <= chars.len(),
    ensures
        from <= end <= chars.len(),
        end - from == prefix_without(chars@.skip(from as int), c),
{
    let mut end = from;
    while end < chars.len() && chars[end] != c
        invariant
            from <= end <= chars.len(),
            forall|j: int| from <= j < end ==> chars@[j] != c,
        decreases chars.len() - end,
    {
        end += 1;
    }
    proof {
        lemma_prefix_without(chars@.skip(from as int), c, (end - from) as nat);
    }
    end
}

/// The segment for the bracketed token at `chars[from..=end]`.
fn token_at<'i>(chars: &Vec<char>, from: usize, end: usize) -> (segment: Option<Segment<'i>>)
    requires
        from <= end < chars.len(),
    ensures
        match segment {
            Some(s) => token_segment(chars@.subrange(from as int, end + 1)) == Some(s@),
            None => token_segment(chars@.subrange(from as int, end + 1)) is None,
        },
{
    let ghost token = chars@.subrange(from as int, end + 1);
    let len = end - from + 1;
    if len == 6 && chars[from] == '[' && chars[from + 1] == 'n' && chars[from + 2] == 'a'
        && chars[from + 3] == 'm' && chars[from + 4] == 'e' && chars[from + 5] == ']' {
        assert(token =~= name_token());
        Some(Segment::Name)
    } else if len == 7 && chars[from] == '[' && chars[from + 1] == 'l' && chars[from + 2] == 'o'
        && chars[from + 3] == 'c' && chars[from + 4] == 'a' && chars[from + 5] == 'l' && chars[from
        + 6] == ']' {
        assert(token =~= local_token());
        Some(Segment::Local)
    } else if len == 6 && chars[from] == '[' && chars[from + 1] == 'h' && chars[from + 2] == 'a'
        && chars[from + 3] == 's' && chars[from + 4] == 'h' && chars[from + 5] == ']' {
        assert(token =~= hash_token());
        Some(Segment::Hash)
    } else {
        assert(token != name_token()) by {
            if token == name_token() {
                assert(token.len() == 6);
                assert(token[0] == '[' && token[1] == 'n' && token[2] == 'a' && token[3] == 'm'
                    && token[4] == 'e' && token[5] == ']');
            }
        }
        assert(token != local_token()) by {
            if token == local_token() {
                assert(token.len() == 7);
                assert(token[0] == '[' && token[1] == 'l' && token[2] == 'o' && token[3] == 'c'
                    && token[4] == 'a' && token[5] == 'l' && token[6] == ']');
            }
        }
        assert(token != hash_token()) by {
            if token == hash_token() {
                assert(token.len() == 6);
                assert(token[0] == '[' && token[1] == 'h' && token[2] == 'a' && token[3] == 's'
                    && token[4] == 'h' && token[5] == ']');
            }
        }
        None
    }
}

/// The position after the last `c` among `chars[from..]`, counted from `from`, or 0
/// where `c` does not occur there.
fn find_after_last(chars: &Vec<char>, from: usize, c: char) -> (end: usize)
    requires
        from <= chars.len(),
    ensures
        end == after_last(chars@.skip(from as int), c),
        from + end <= chars.len(),
{
    let mut k = chars.len();
    while k > from && chars[k - 1] != c
        invariant
            from <= k <= chars.len(),
            forall|j: int| k <= j < chars.len() ==> chars@[j] != c,
        decreases k,
    {
        k -= 1;
    }
    proof {
        let text = chars@.skip(from as int);
        if k > from {
            assert(text[k - from - 1] == chars@[k - 1]);
        }
        lemma_after_last(text, c, (k - from) as nat);
    }
    k - from
}

/// The base name of a source file, which the `Name` segment of a pattern stands for:
/// the file name without the directories before it and without its last extension.
/// `src/button.module.css` has the base name `button.module`, and `.hidden` is its own.
pub fn base_name(path: &str) -> (name: &str)
    ensures
        name@ == base_name_of(path@),
{
    let chars = chars_of(path);
    let start = find_after_last(&chars, 0, '/');
    assert(chars@.skip(0) =~= chars@);
    let end = find_after_last(&chars, start, '.');
    let ghost file = file_name_of(path@);
    if end >= 2 {
        let name = path.substring_char(start, start + end - 1);
        assert(name@ =~= file.take(end - 1));
        name
    } else {
        let name = path.substring_char(start, chars.len());
        assert(name@ =~= file);
        name
    }
}

impl<'i> Pattern<'i> {
    /// Parses a pattern from a template string.
    ///
    /// The template is literal text with the tokens `[name]`, `[local]` and `[hash]` in it.
    /// The result is exactly what [`parse_template`] gives: an unknown or unclosed token
    /// rejects the whole template, and the empty template is the empty pattern.
    pub fn parse(input: &'i str) -> (result: Result<Pattern<'i>, ()>)
        ensures
            match result {
                Ok(pattern) => parse_template(input@) == Some(pattern@),
                Err(_) => parse_template(input@) is None,
            },
    {
        let chars = chars_of(input);
        let n = chars.len();
        let mut segments = segments_new();
        let mut pos: usize = 0;
        assert(input@.skip(0) =~= input@);
        assert(segment_views(segment_seq(segments)) =~= Seq::<SegmentView>::empty());
        proof {
            lemma_prepend_nothing(parse_template(input@));
        }
        while pos < n
            invariant
                chars@ == input@,
                n == chars.len(),
                pos <= n,
                parse_template(input@) == prepend_segments(
                    segment_views(segment_seq(segments)),
                    parse_template(input@.skip(pos as int)),
                ),
            decreases n - pos,
        {
            let ghost rest = input@.skip(pos as int);
            let ghost before = segment_views(segment_seq(segments));
            if chars[pos] == '[' {
                let end = find_from(&chars, pos, ']');
                if end == n {
                    return Err(());
                }
                assert(rest.take(end - pos + 1) =~= chars@.subrange(pos as int, end + 1));
                assert(rest.skip(end - pos + 1) =~= input@.skip(end + 1));
                match token_at(&chars, pos, end) {
                    Some(segment) => {
                        segments_push(&mut segments, segment);
                        assert(segment_views(segment_seq(segments)) =~= before + seq![segment@]);
                        proof {
                            lemma_prepend_twice(
                                before,
                                seq![segment@],
                                parse_template(input@.skip(end + 1)),
                            );
                        }
                        pos = end + 1;
                    },
                    None => {
                        return Err(());
                    },
                }
            } else {
                let end = find_from(&chars, pos, '[');
                let literal = input.substring_char(pos, end);
                assert(rest.take(end - pos) =~= literal@);
                assert(rest.skip(end - pos) =~= input@.skip(end as int));
                segments_push(&mut segments, Segment::Literal(literal));
                assert(segment_views(segment_seq(segments)) =~= before + seq![
                    SegmentView::Literal(literal@),
                ]);
                proof {
                    lemma_prepend_twice(
                        before,
                        seq![SegmentView::Literal(literal@)],
                        parse_template(input@.skip(end as int)),
                    );
                }
                pos = end;
            }
        }
        assert(input@.skip(pos as int) =~= Seq::<char>::empty());
        assert(segment_views(segment_seq(segments)) + Seq::<SegmentView>::empty()
            =~= segment_views(segment_seq(segments)));
        Ok(Pattern { segments })
    }

    /// Appends to `dest` the name that the pattern compiles `local` to: for each segment
    /// in order, literal text verbatim, `local` for `Local`, `hash` for `Hash`, and for
    /// `Name` the base name of the source file, which the caller gives as `name` (see
    /// [`base_name`]).
    pub fn write(&self, hash: &str, local: &str, name: &str, dest: &mut String)
        ensures
            final(dest)@ == old(dest)@ + compiled_name(self@, hash@, local@, name@),
    {
        let n = segments_len(&self.segments);
        let mut i: usize = 0;
        assert(self@.take(0) =~= Seq::<SegmentView>::empty());
        assert(dest@ + Seq::<char>::empty() =~= dest@);
        while i < n
            invariant
                n == segment_seq(self.segments).len(),
                i <= n,
                dest@ == old(dest)@ + compiled_name(self@.take(i as int), hash@, local@, name@),
            decreases n - i,
        {
            let ghost so_far = compiled_name(self@.take(i as int), hash@, local@, name@);
            let ghost text = segment_text(self@[i as int], name@, local@, hash@);
            assert(self@.take(i + 1).drop_last() =~= self@.take(i as int));
            assert(old(dest)@ + (so_far + text) =~= (old(dest)@ + so_far) + text);
            match segments_get(&self.segments, i) {
                Segment::Literal(text) => {
                    dest.append(text);
                },
                Segment::Local => {
                    dest.append(local);
                },
                Segment::Hash => {
                    dest.append(hash);
                },
                Segment::Name => {
                    dest.append(name);
                },
            }
            i += 1;
        }
        assert(self@.take(n as int) =~= self@);
    }

    /// The name that the pattern compiles `local` to, as a new string.
    pub fn write_to_string(&self, hash: &str, local: &str, name: &str) -> (compiled: String)
        ensures
            compiled@ == compiled_name(self@, hash@, local@, name@),
    {
        let mut compiled = String::new();
        self.write(hash, local, name, &mut compiled);
        assert(Seq::<char>::empty() + compiled_name(self@, hash@, local@, name@)
            =~= compiled_name(self@, hash@, local@, name@));
        compiled
    }
}

impl<'i> Default for Pattern<'i> {
    /// The pattern `[hash]_[local]`.
    fn default() -> (pattern: Self)
        ensures
            pattern@ == default_segments(),
    {
        let mut segments = segments_new();
        segments_push(&mut segments, Segment::Hash);
        segments_push(&mut segments, Segment::Literal("_"));
        segments_push(&mut segments, Segment::Local);
        proof {
            reveal_strlit("_");
            assert("_"@ =~= seq!['_']);
            assert(segment_views(segment_seq(segments)) =~= default_segments());
        }
        Pattern { segments }
    }
}

impl<'i> Clone for Pattern<'i> {
    fn clone(&self) -> (copy: Self)
        ensures
            copy@ == self@,
    {
        Pattern { segments: segments_clone(&self.segments) }
    }
}

impl<'i> Default for Config<'i> {
    /// The configuration with the default pattern.
    fn default() -> (config: Self)
        ensures
            config.pattern@ == default_segments(),
    {
        Config { pattern: Pattern::default() }
    }
}

impl<'i> Clone for Config<'i> {
    fn clone(&self) -> (copy: Self)
        ensures
            copy.pattern@ == self.pattern@,
    {
        Config { pattern: self.pattern.clone() }
    }
}

/// Putting nothing in front of a parse leaves it as it is.
proof fn lemma_prepend_nothing(rest: Option<Seq<SegmentView>>)
    ensures
        prepend_segments(Seq::empty(), rest) == rest,
{
    if let Some(segments) = rest {
        assert(Seq::<SegmentView>::empty() + segments =~= segments);
    }
}

/// Putting `front` before `middle` before a parse is putting `front + middle` before it.
proof fn lemma_prepend_twice(
    front: Seq<SegmentView>,
    middle: Seq<SegmentView>,
    rest: Option<Seq<SegmentView>>,
)
    ensures
        prepend_segments(front, prepend_segments(middle, rest)) == prepend_segments(
            front + middle,
            rest,
        ),
{
    if let Some(segments) = rest {
        assert(front + (middle + segments) =~= (front + middle) + segments);
    }
}

/// Rendering a concatenation is concatenating the renderings.
pub proof fn lemma_render_concat(
    front: Seq<SegmentView>,
    back: Seq<SegmentView>,
    name: Seq<char>,
    local: Seq<char>,
    hash: Seq<char>,
)
    ensures
        render_segments(front + back, name, local, hash) == render_segments(
            front,
            name,
            local,
            hash,
        ) + render_segments(back, name, local, hash),
    decreases back.len(),
{
    if back.len() == 0 {
        assert(front + back =~= front);
        assert(render_segments(front, name, local, hash) + Seq::<char>::empty()
            =~= render_segments(front, name, local, hash));
    } else {
        lemma_render_concat(front, back.drop_last(), name, local, hash);
        assert((front + back).drop_last() =~= front + back.drop_last());
        assert((front + back).last() == back.last());
        let a = render_segments(front, name, local, hash);
        let b = render_segments(back.drop_last(), name, local, hash);
        let c = segment_text(back.last(), name, local, hash);
        assert((a + b) + c =~= a + (b + c));
    }
}

/// Rendering one segment gives its text.
pub proof fn lemma_render_one(
    segment: SegmentView,
    name: Seq<char>,
    local: Seq<char>,
    hash: Seq<char>,
)
    ensures
        render_segments(seq![segment], name, local, hash) == segment_text(
            segment,
            name,
            local,
            hash,
        ),
{
    let one = seq![segment];
    assert(one.drop_last() =~= Seq::<SegmentView>::empty());
    assert(render_segments(one.drop_last(), name, local, hash) == Seq::<char>::empty());
    assert(Seq::<char>::empty() + segment_text(segment, name, local, hash) =~= segment_text(
        segment,
        name,
        local,
        hash,
    ));
}

/// What a template parses to is written as that template again, and is canonical.
pub proof fn lemma_parse_keeps_template(template: Seq<char>)
    requires
        parse_template(template) is Some,
    ensures
        template_text(parse_template(template)->0) == template,
        is_canonical(parse_template(template)->0),
    decreases template.len(),
{
    let segments = parse_template(template)->0;
    if template.len() == 0 {
    } else if template[0] == '[' {
        let end = prefix_without(template, ']') as int;
        let token = template.take(end + 1);
        let rest = template.skip(end + 1);
        let segment = token_segment(token)->0;
        let tail = parse_template(rest)->0;
        lemma_parse_keeps_template(rest);
        lemma_render_concat(seq![segment], tail, name_token(), local_token(), hash_token());
        lemma_render_one(segment, name_token(), local_token(), hash_token());
        assert(token + rest =~= template);
        assert(segments == seq![segment] + tail);
        assert(is_canonical(segments)) by {
            assert forall|i: int| 0 <= i < segments.len() implies (
            #[trigger] segments[i] matches SegmentView::Literal(text) ==> text.len() > 0
                && !text.contains('[')) by {
                if i > 0 {
                    assert(segments[i] == tail[i - 1]);
                }
            }
            assert forall|i: int| 0 <= i < segments.len() - 1 implies !((
            #[trigger] segments[i]) is Literal && segments[i + 1] is Literal) by {
                if i > 0 {
                    assert(segments[i] == tail[i - 1]);
                    assert(segments[i + 1] == tail[i]);
                }
            }
        }
    } else {
        lemma_prefix_without_bound(template, '[');
        let end = prefix_without(template, '[') as int;
        let literal = template.take(end);
        let rest = template.skip(end);
        let segment = SegmentView::Literal(literal);
        let tail = parse_template(rest)->0;
        lemma_parse_keeps_template(rest);
        lemma_render_concat(seq![segment], tail, name_token(), local_token(), hash_token());
        lemma_render_one(segment, name_token(), local_token(), hash_token());
        assert(literal + rest =~= template);
        assert(segments == seq![segment] + tail);
        lemma_prefix_holds_none(template, '[');
        assert(!literal.contains('['));
        lemma_parse_starts_with_token(rest);
        assert(is_canonical(segments)) by {
            assert forall|i: int| 0 <= i < segments.len() implies (
            #[trigger] segments[i] matches SegmentView::Literal(text) ==> text.len() > 0
                && !text.contains('[')) by {
                if i > 0 {
                    assert(segments[i] == tail[i - 1]);
                }
            }
            assert forall|i: int| 0 <= i < segments.len() - 1 implies !((
            #[trigger] segments[i]) is Literal && segments[i + 1] is Literal) by {
                if i > 0 {
                    assert(segments[i] == tail[i - 1]);
                    assert(segments[i + 1] == tail[i]);
                } else {
                    assert(segments[1] == tail[0]);
                }
            }
        }
    }
}

/// `c` does not occur in the prefix that `prefix_without` measures, and stands right
/// after it unless the text ends there.
pub proof fn lemma_prefix_holds_none(text: Seq<char>, c: char)
    ensures
        !text.take(prefix_without(text, c) as int).contains(c),
        prefix_without(text, c) < text.len() ==> text[prefix_without(text, c) as int] == c,
    decreases text.len(),
{
    lemma_prefix_without_bound(text, c);
    if text.len() == 0 || text[0] == c {
        assert(text.take(0) =~= Seq::<char>::empty());
    } else {
        lemma_prefix_holds_none(text.drop_first(), c);
        lemma_prefix_without_bound(text.drop_first(), c);
        let k = prefix_without(text.drop_first(), c) as int;
        let prefix = text.take(k + 1);
        assert forall|i: int| 0 <= i < prefix.len() implies prefix[i] != c by {
            if i > 0 {
                assert(prefix[i] == text.drop_first().take(k)[i - 1]);
            }
        }
    }
}

/// A template that starts with `[` and parses gives a first segment that is no literal.
pub proof fn lemma_parse_starts_with_token(template: Seq<char>)
    requires
        parse_template(template) is Some,
        template.len() > 0 ==> template[0] == '[',
    ensures
        parse_template(template)->0.len() > 0 ==> !(parse_template(template)->0[0] is Literal),
{
    if template.len() > 0 {
        let end = prefix_without(template, ']') as int;
        let segment = token_segment(template.take(end + 1))->0;
        let tail = parse_template(template.skip(end + 1))->0;
        assert((seq![segment] + tail)[0] == segment);
    }
}

/// The compiled name depends on the pattern, the hash, the local name and the base
/// name alone: the same four give the same name.
pub proof fn lemma_compiled_name_is_a_function(
    segments: Seq<SegmentView>,
    hash: Seq<char>,
    local: Seq<char>,
    name: Seq<char>,
    again: Seq<SegmentView>,
    hash_again: Seq<char>,
    local_again: Seq<char>,
    name_again: Seq<char>,
)
    requires
        segments == again,
        hash == hash_again,
        local == local_again,
        name == name_again,
    ensures
        compiled_name(segments, hash, local, name) == compiled_name(
            again,
            hash_again,
            local_again,
            name_again,
        ),
{
}

/// The default pattern compiles a name to the hash, an underscore and the name,
/// whatever the base name of the source is.
pub proof fn lemma_default_name(hash: Seq<char>, local: Seq<char>, name: Seq<char>)
    ensures
        compiled_name(default_segments(), hash, local, name) == hash + seq!['_'] + local,
{
    let segments = default_segments();
    assert(segments.drop_last() =~= seq![SegmentView::Hash, SegmentView::Literal(seq!['_'])]);
    assert(segments.drop_last().drop_last() =~= seq![SegmentView::Hash]);
    lemma_render_one(SegmentView::Hash, name, local, hash);
    assert(compiled_name(segments.drop_last(), hash, local, name) == hash + seq!['_']);
}

/// Compiling is the inverse of parsing: a parsed template, compiled with the text
/// `[hash]` as the hash, `[local]` as the local name and `[name]` as the base name, is
/// the template.
pub proof fn lemma_compile_inverts_parse(template: Seq<char>)
    requires
        parse_template(template) is Some,
    ensures
        compiled_name(parse_template(template)->0, hash_token(), local_token(), name_token())
            == template,
{
    lemma_parse_keeps_template(template);
}

/// Where `c` stands right before position `k` of `text`, or `k` is 0, and does not
/// occur from `k` on, `k` is the position after the last `c`.
pub proof fn lemma_after_last(text: Seq<char>, c: char, k: nat)
    requires
        k <= text.len(),
        k == 0 || text[k - 1] == c,
        forall|j: int| k <= j < text.len() ==> text[j] != c,
    ensures
        after_last(text, c) == k,
    decreases text.len(),
{
    if text.len() > k {
        assert(text.last() == text[text.len() - 1]);
        lemma_after_last(text.drop_last(), c, k);
    } else if k > 0 {
        assert(text.last() == text[k - 1]);
    }
}

/// The template text of a token segment: it opens with `[`, closes with its only `]`,
/// and is read back as the segment.
pub proof fn lemma_token_text(segment: SegmentView)
    requires
        !(segment is Literal),
    ensures
        ({
            let text = segment_text(segment, name_token(), local_token(), hash_token());
            &&& text.len() >= 6
            &&& text[0] == '['
            &&& text[text.len() - 1] == ']'
            &&& forall|j: int| 0 <= j < text.len() - 1 ==> text[j] != ']'
            &&& token_segment(text) == Some(segment)
        }),
{
    assert(name_token()[1] == 'n' && local_token()[1] == 'l' && hash_token()[1] == 'h');
}

/// Rendering segments is rendering the first and then the others.
pub proof fn lemma_render_first(
    segments: Seq<SegmentView>,
    name: Seq<char>,
    local: Seq<char>,
    hash: Seq<char>,
)
    requires
        segments.len() > 0,
    ensures
        render_segments(segments, name, local, hash) == segment_text(segments[0], name, local, hash)
            + render_segments(segments.drop_first(), name, local, hash),
{
    assert(seq![segments[0]] + segments.drop_first() =~= segments);
    lemma_render_concat(seq![segments[0]], segments.drop_first(), name, local, hash);
    lemma_render_one(segments[0], name, local, hash);
}

/// Every canonical sequence of segments is what its template parses to: parsing is
/// the inverse of writing a pattern down.
pub proof fn lemma_template_parses_back(segments: Seq<SegmentView>)
    requires
        is_canonical(segments),
    ensures
        parse_template(template_text(segments)) == Some(segments),
    decreases segments.len(),
{
    let template = template_text(segments);
    if segments.len() == 0 {
        assert(segments =~= Seq::<SegmentView>::empty());
    } else {
        let rest = segments.drop_first();
        let tail = template_text(rest);
        let head = segment_text(segments[0], name_token(), local_token(), hash_token());
        lemma_render_first(segments, name_token(), local_token(), hash_token());
        assert(template == head + tail);
        assert(is_canonical(rest)) by {
            assert forall|i: int| 0 <= i < rest.len() implies (
            #[trigger] rest[i] matches SegmentView::Literal(text) ==> text.len() > 0
                && !text.contains('[')) by {
                assert(rest[i] == segments[i + 1]);
            }
            assert forall|i: int| 0 <= i < rest.len() - 1 implies !((
            #[trigger] rest[i]) is Literal && rest[i + 1] is Literal) by {
                assert(rest[i] == segments[i + 1]);
                assert(rest[i + 1] == segments[i + 2]);
            }
        }
        lemma_template_parses_back(rest);
        assert(seq![segments[0]] + rest =~= segments);
        match segments[0] {
            SegmentView::Literal(text) => {
                assert(text.len() > 0 && !text.contains('['));
                assert(template[0] == text[0]);
                assert(text.contains(text[0]));
                assert forall|j: int| 0 <= j < text.len() implies template[j] != '[' by {
                    assert(template[j] == text[j]);
                    assert(text.contains(text[j]));
                }
                if rest.len() > 0 {
                    assert(segments[1] == rest[0]);
                    assert(!(segments[0] is Literal && segments[1] is Literal));
                    lemma_token_text(rest[0]);
                    lemma_render_first(rest, name_token(), local_token(), hash_token());
                    assert(template[text.len() as int] == tail[0]);
                } else {
                    assert(tail.len() == 0);
                }
                lemma_prefix_without(template, '[', text.len());
                assert(template.take(text.len() as int) =~= text);
                assert(template.skip(text.len() as int) =~= tail);
            },
            _ => {
                lemma_token_text(segments[0]);
                assert(template[0] == head[0]);
                assert forall|j: int| 0 <= j < head.len() - 1 implies template[j] != ']' by {
                    assert(template[j] == head[j]);
                }
                assert(template[head.len() - 1] == head[head.len() - 1]);
                lemma_prefix_without(template, ']', (head.len() - 1) as nat);
                assert(template.take(head.len() as int) =~= head);
                assert(template.skip(head.len() as int) =~= tail);
            },
        }
    }
}

} // verus!
