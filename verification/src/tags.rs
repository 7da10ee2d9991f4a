//! Tags: names with a colour, kept at the beginning of the description of a
//! fleet.
//!
//! A description with tags begins with `Tags:`, then holds each tag as
//! `<color=#rrggbb>name</color>`, then the text of the description itself.
//! White space may stand after `Tags:` and after each tag.

use vstd::prelude::*;
use vstd::string::StrSliceExecFns;
use crate::error::{Error, ErrorKind, ErrorView};
use crate::numbers::{parse_hex_u32, parsed_hex};
use crate::schema::Fleet;
use crate::text::is_white_space;

verus! {

/// A colour: red, green and blue.
#[derive(Clone, Copy, Debug, PartialEq, Eq, Structural)]
pub struct Color {
    pub r: u8,
    pub g: u8,
    pub b: u8,
}

/// A tag: a name and its colour.
#[derive(Debug, Clone, PartialEq, Eq)]
pub struct Tag {
    pub name: String,
    pub color: Color,
}

/// The view of a [`Tag`].
pub struct TagView {
    pub name: Seq<char>,
    pub color: Color,
}

impl View for Tag {
    type V = TagView;

    open spec fn view(&self) -> TagView {
        TagView { name: self.name@, color: self.color }
    }
}

/// The views of a list of tags.
pub open spec fn tags_view(tags: Seq<Tag>) -> Seq<TagView> {
    tags.map_values(|t: Tag| t@)
}

/// Whether `pattern` stands in `s` at the place `at`.
pub open spec fn stands_at(s: Seq<char>, pattern: Seq<char>, at: int) -> bool {
    &&& 0 <= at
    &&& at + pattern.len() <= s.len()
    &&& s.subrange(at, at + pattern.len()) == pattern
}

/// The first place from `from` on at which `pattern` stands in `s`, or -1
/// where it stands at none.
pub open spec fn find_from(s: Seq<char>, pattern: Seq<char>, from: int) -> int
    decreases s.len() - from,
{
    if from < 0 || pattern.len() == 0 || from + pattern.len() > s.len() {
        -1
    } else if stands_at(s, pattern, from) {
        from
    } else {
        find_from(s, pattern, from + 1)
    }
}

/// The first place from `from` on that holds no white space.
pub open spec fn skip_white(s: Seq<char>, from: int) -> int
    decreases s.len() - from,
{
    if 0 <= from < s.len() && is_white_space(s[from]) {
        skip_white(s, from + 1)
    } else {
        from
    }
}

/// A place found lies at or after the place the search began.
pub proof fn lemma_find_from(s: Seq<char>, pattern: Seq<char>, from: int)
    ensures
        find_from(s, pattern, from) == -1 || (from <= find_from(s, pattern, from) && find_from(
            s,
            pattern,
            from,
        ) + pattern.len() <= s.len()),
    decreases s.len() - from,
{
    if !(from < 0 || pattern.len() == 0 || from + pattern.len() > s.len()) && !stands_at(
        s,
        pattern,
        from,
    ) {
        lemma_find_from(s, pattern, from + 1);
    }
}

/// Skipping white space goes forward, and not beyond the end.
pub proof fn lemma_skip_white(s: Seq<char>, from: int)
    ensures
        from <= skip_white(s, from),
        from <= s.len() ==> skip_white(s, from) <= s.len(),
    decreases s.len() - from,
{
    if 0 <= from < s.len() && is_white_space(s[from]) {
        lemma_skip_white(s, from + 1);
    }
}

/// The colour that hexadecimal digits stand for: the last three bytes of
/// their value are red, green and blue.
pub open spec fn color_of(hex: Seq<char>) -> Option<Color> {
    match parsed_hex(hex) {
        Some(value) => Some(
            Color {
                r: (value / 0x1_0000 % 0x100) as u8,
                g: (value / 0x100 % 0x100) as u8,
                b: (value % 0x100) as u8,
            },
        ),
        None => None,
    }
}

/// The tag that stands in `s` at `at`: the places of the `>` that ends its
/// colour and of the `</color>` that ends its name, and its colour. The
/// inner value is nothing where no tag stands there, the outer nothing where
/// the colour is no hexadecimal number.
pub open spec fn tag_at(s: Seq<char>, at: int) -> Option<Option<(int, Color, int)>> {
    if !stands_at(s, "<color=#"@, at) {
        Some(None)
    } else {
        let close = find_from(s, ">"@, at + "<color=#"@.len());
        if close < 0 {
            Some(None)
        } else {
            match color_of(s.subrange(at + "<color=#"@.len(), close)) {
                None => None,
                Some(color) => {
                    let end = find_from(s, "</color>"@, close + 1);
                    if end < 0 {
                        Some(None)
                    } else {
                        Some(Some((close, color, end)))
                    }
                },
            }
        }
    }
}

/// The tags that stand in `s` from `at` on, one after the other with white
/// space after each, and the place after them; nothing where a tag has a
/// colour that is no hexadecimal number.
pub open spec fn parsed_tags(s: Seq<char>, at: int) -> Option<(Seq<TagView>, int)>
    decreases s.len() - at,
{
    match tag_at(s, at) {
        None => None,
        Some(None) => Some((Seq::empty(), at)),
        Some(Some((close, color, end))) => {
            proof {
                lemma_find_from(s, ">"@, at + "<color=#"@.len());
                lemma_find_from(s, "</color>"@, close + 1);
                lemma_skip_white(s, end + "</color>"@.len());
            }
            match parsed_tags(s, skip_white(s, end + "</color>"@.len())) {
                None => None,
                Some((tags, stop)) => Some(
                    (seq![TagView { name: s.subrange(close + 1, end), color }] + tags, stop),
                ),
            }
        },
    }
}

/// The error for a tag whose colour is no hexadecimal number.
pub open spec fn bad_color() -> ErrorView {
    ErrorView {
        kind: ErrorKind::Parse,
        title: "Failed to parse tags"@,
        error: "The colour of a tag is not a hexadecimal number"@,
    }
}

/// What reading the tags of a description returns: no tags and the whole
/// text where it does not begin with `Tags:`, else its tags and the text
/// after them.
pub open spec fn tags_result(result: Result<(Vec<Tag>, String), Error>, desc: Seq<char>) -> bool {
    if !stands_at(desc, "Tags:"@, 0) {
        result matches Ok(found) && found.0@.len() == 0 && found.1@ == desc
    } else {
        match parsed_tags(desc, skip_white(desc, "Tags:"@.len() as int)) {
            None => result matches Err(e) && e@ == bad_color(),
            Some((tags, stop)) => result matches Ok(found) && tags_view(found.0@) == tags
                && found.1@ == desc.skip(stop),
        }
    }
}

/// The characters of a text.
pub(crate) fn chars_of(text: &str) -> (chars: Vec<char>)
    ensures
        chars@ == text@,
{
    let n = text.unicode_len();
    let mut chars: Vec<char> = Vec::new();
    let mut i: usize = 0;
    while i < n
        invariant
            i <= n,
            n == text@.len(),
            chars@ == text@.take(i as int),
        decreases n - i,
    {
        chars.push(text.get_char(i));
        proof {
            assert(chars@ =~= text@.take(i + 1));
        }
        i += 1;
    }
    proof {
        assert(text@.take(n as int) =~= text@);
    }
    chars
}

/// Whether a character is white space.
fn white_space(c: char) -> (res: bool)
    ensures
        res == is_white_space(c),
{
    let n = c as u32;
    (0x09 <= n && n <= 0x0D) || n == 0x20 || n == 0x85 || n == 0xA0 || n == 0x1680 || (0x2000 <= n
        && n <= 0x200A) || n == 0x2028 || n == 0x2029 || n == 0x202F || n == 0x205F || n == 0x3000
}

/// Whether `pattern` stands in `s` at the place `at`.
pub(crate) fn stands(s: &Vec<char>, pattern: &Vec<char>, at: usize) -> (res: bool)
    ensures
        res == stands_at(s@, pattern@, at as int),
{
    if pattern.len() > s.len() || at > s.len() - pattern.len() {
        return false;
    }
    let mut k: usize = 0;
    while k < pattern.len()
        invariant
            k <= pattern.len(),
            at + pattern.len() <= s.len(),
            forall|j: int| 0 <= j < k ==> s@[at + j] == pattern@[j],
        decreases pattern.len() - k,
    {
        if s[at + k] != pattern[k] {
            proof {
                assert(s@.subrange(at as int, at + pattern.len())[k as int] == s@[at + k]);
            }
            return false;
        }
        k += 1;
    }
    proof {
        assert(s@.subrange(at as int, at + pattern.len()) =~= pattern@);
    }
    true
}

/// The first place from `from` on at which `pattern` stands in `s`.
pub(crate) fn find(s: &Vec<char>, pattern: &Vec<char>, from: usize) -> (place: Option<usize>)
    ensures
        match place {
            Some(i) => i == find_from(s@, pattern@, from as int) && from <= i && i
                + pattern.len() <= s.len(),
            None => find_from(s@, pattern@, from as int) == -1,
        },
{
    if pattern.len() == 0 {
        return None;
    }
    let mut i: usize = from;
    loop
        invariant
            from <= i,
            pattern.len() > 0,
            find_from(s@, pattern@, from as int) == find_from(s@, pattern@, i as int),
        decreases s.len() - i,
    {
        if pattern.len() > s.len() || i > s.len() - pattern.len() {
            return None;
        }
        if stands(s, pattern, i) {
            return Some(i);
        }
        i += 1;
    }
}

/// The first place from `from` on that holds no white space.
fn skip(s: &Vec<char>, from: usize) -> (place: usize)
    requires
        from <= s.len(),
    ensures
        place == skip_white(s@, from as int),
        from <= place <= s.len(),
{
    let mut i: usize = from;
    while i < s.len() && white_space(s[i])
        invariant
            from <= i <= s.len(),
            skip_white(s@, from as int) == skip_white(s@, i as int),
        decreases s.len() - i,
    {
        i += 1;
    }
    i
}

/// The colour that hexadecimal digits stand for.
fn color(hex: &str) -> (res: Option<Color>)
    ensures
        res == color_of(hex@),
{
    match parse_hex_u32(hex) {
        Some(value) => Some(
            Color {
                r: (value / 0x1_0000 % 0x100) as u8,
                g: (value / 0x100 % 0x100) as u8,
                b: (value % 0x100) as u8,
            },
        ),
        None => None,
    }
}

/// The texts that make up a tag, as lists of characters.
struct Marks {
    open: Vec<char>,
    close: Vec<char>,
    end: Vec<char>,
}

impl Marks {
    spec fn wf(&self) -> bool {
        &&& self.open@ == "<color=#"@
        &&& self.close@ == ">"@
        &&& self.end@ == "</color>"@
    }

    fn new() -> (marks: Marks)
        ensures
            marks.wf(),
    {
        Marks { open: chars_of("<color=#"), close: chars_of(">"), end: chars_of("</color>") }
    }
}

/// The tag that stands in `desc`, whose characters are `s`, at `at`.
fn next_tag(desc: &str, s: &Vec<char>, marks: &Marks, at: usize) -> (found: Option<
    Option<(usize, Color, usize)>,
>)
    requires
        s@ == desc@,
        marks.wf(),
        at <= s.len(),
    ensures
        match found {
            None => tag_at(s@, at as int) is None,
            Some(None) => tag_at(s@, at as int) == Some(None::<(int, Color, int)>),
            Some(Some((close, color, end))) => {
                &&& tag_at(s@, at as int) == Some(Some((close as int, color, end as int)))
                &&& at < close < end
                &&& end + "</color>"@.len() <= s.len()
            },
        },
{
    proof {
        reveal_strlit("<color=#");
        reveal_strlit(">");
        reveal_strlit("</color>");
    }
    if !stands(s, &marks.open, at) {
        return Some(None);
    }
    let closing = match find(s, &marks.close, at + marks.open.len()) {
        Some(closing) => closing,
        None => {
            return Some(None);
        },
    };
    let hex = desc.substring_char(at + marks.open.len(), closing);
    let color = match color(hex) {
        Some(color) => color,
        None => {
            return None;
        },
    };
    match find(s, &marks.end, closing + 1) {
        Some(ending) => Some(Some((closing, color, ending))),
        None => Some(None),
    }
}

/// Reads the tags of a description: the tags it begins with, and the text
/// after them.
///
/// Fails where the colour of a tag is no hexadecimal number.
pub fn get_tags_from_description(desc: &str) -> (result: Result<(Vec<Tag>, String), Error>)
    ensures
        tags_result(result, desc@),
{
    let s = chars_of(desc);
    let heading = chars_of("Tags:");
    let marks = Marks::new();
    if !stands(&s, &heading, 0) {
        return Ok((Vec::new(), desc.to_owned()));
    }
    let mut tags: Vec<Tag> = Vec::new();
    let mut at: usize = skip(&s, heading.len());
    let ghost first = at as int;
    proof {
        assert(tags_view(tags@) =~= Seq::empty());
        let start = parsed_tags(s@, first);
        if start is Some {
            assert(Seq::<TagView>::empty() + start.unwrap().0 =~= start.unwrap().0);
        }
    }
    loop
        invariant
            s@ == desc@,
            marks.wf(),
            at <= s.len(),
            first == skip_white(desc@, "Tags:"@.len() as int),
            stands_at(desc@, "Tags:"@, 0),
            match parsed_tags(s@, at as int) {
                None => parsed_tags(s@, first) is None,
                Some((rest, stop)) => parsed_tags(s@, first) == Some(
                    (tags_view(tags@) + rest, stop),
                ),
            },
        decreases s.len() - at,
    {
        let ghost before = tags@;
        proof {
            reveal_strlit("</color>");
        }
        match next_tag(desc, &s, &marks, at) {
            None => {
                return Err(
                    Error::new(
                        ErrorKind::Parse,
                        "Failed to parse tags",
                        "The colour of a tag is not a hexadecimal number",
                    ),
                );
            },
            Some(None) => {
                proof {
                    assert(tags_view(tags@) + Seq::<TagView>::empty() =~= tags_view(tags@));
                    assert(s@.subrange(at as int, s@.len() as int) =~= s@.skip(at as int));
                }
                let rest = desc.substring_char(at, s.len()).to_owned();
                return Ok((tags, rest));
            },
            Some(Some((closing, color, ending))) => {
                let name = desc.substring_char(closing + 1, ending).to_owned();
                let tag = Tag { name, color };
                tags.push(tag);
                at = skip(&s, ending + marks.end.len());
                proof {
                    let rest = parsed_tags(s@, at as int);
                    assert(tags_view(before.push(tag)) =~= tags_view(before).push(tag@));
                    if rest is Some {
                        let more = rest.unwrap().0;
                        assert(tags_view(before) + (seq![tag@] + more) =~= tags_view(
                            before.push(tag),
                        ) + more);
                    }
                }
            },
        }
    }
}

/// The lower-case hexadecimal digit of a value below 16.
pub open spec fn lower_hex_char(n: nat) -> char {
    if n == 0 {
        '0'
    } else if n == 1 {
        '1'
    } else if n == 2 {
        '2'
    } else if n == 3 {
        '3'
    } else if n == 4 {
        '4'
    } else if n == 5 {
        '5'
    } else if n == 6 {
        '6'
    } else if n == 7 {
        '7'
    } else if n == 8 {
        '8'
    } else if n == 9 {
        '9'
    } else if n == 10 {
        'a'
    } else if n == 11 {
        'b'
    } else if n == 12 {
        'c'
    } else if n == 13 {
        'd'
    } else if n == 14 {
        'e'
    } else {
        'f'
    }
}

/// A byte as two lower-case hexadecimal digits.
pub open spec fn hex_byte(b: u8) -> Seq<char> {
    seq![lower_hex_char((b / 16) as nat), lower_hex_char((b % 16) as nat)]
}

/// A tag as a description holds it.
pub open spec fn tag_text(tag: TagView) -> Seq<char> {
    "<color=#"@ + hex_byte(tag.color.r) + hex_byte(tag.color.g) + hex_byte(tag.color.b) + ">"@
        + tag.name + "</color>"@
}

/// The tags as a description holds them, with a space between one and the
/// next.
pub open spec fn tags_text(tags: Seq<TagView>) -> Seq<char>
    decreases tags.len(),
{
    if tags.len() == 0 {
        Seq::empty()
    } else if tags.len() == 1 {
        tag_text(tags[0])
    } else {
        tags_text(tags.drop_last()) + " "@ + tag_text(tags.last())
    }
}

/// A description with tags: `Tags: `, the tags, a line break and the text.
pub open spec fn described(tags: Seq<TagView>, description: Seq<char>) -> Seq<char> {
    "Tags: "@ + tags_text(tags) + "\n"@ + description
}

/// The lower-case hexadecimal digit of a value below 16, as a text.
pub(crate) fn lower_hex_text(digit: u8) -> (text: &'static str)
    requires
        digit < 16,
    ensures
        text@ == seq![lower_hex_char(digit as nat)],
{
    proof {
        reveal_strlit("0");
        reveal_strlit("1");
        reveal_strlit("2");
        reveal_strlit("3");
        reveal_strlit("4");
        reveal_strlit("5");
        reveal_strlit("6");
        reveal_strlit("7");
        reveal_strlit("8");
        reveal_strlit("9");
        reveal_strlit("a");
        reveal_strlit("b");
        reveal_strlit("c");
        reveal_strlit("d");
        reveal_strlit("e");
        reveal_strlit("f");
    }
    let text = if digit == 0 {
        "0"
    } else if digit == 1 {
        "1"
    } else if digit == 2 {
        "2"
    } else if digit == 3 {
        "3"
    } else if digit == 4 {
        "4"
    } else if digit == 5 {
        "5"
    } else if digit == 6 {
        "6"
    } else if digit == 7 {
        "7"
    } else if digit == 8 {
        "8"
    } else if digit == 9 {
        "9"
    } else if digit == 10 {
        "a"
    } else if digit == 11 {
        "b"
    } else if digit == 12 {
        "c"
    } else if digit == 13 {
        "d"
    } else if digit == 14 {
        "e"
    } else {
        "f"
    };
    proof {
        assert(text@ =~= seq![lower_hex_char(digit as nat)]);
    }
    text
}

/// Appends a byte as two lower-case hexadecimal digits.
fn push_hex_byte(text: &mut String, b: u8)
    ensures
        final(text)@ == old(text)@ + hex_byte(b),
{
    text.append(lower_hex_text(b / 16));
    text.append(lower_hex_text(b % 16));
    proof {
        assert(text@ =~= old(text)@ + hex_byte(b));
    }
}

/// Appends a tag as a description holds it.
fn push_tag(text: &mut String, tag: &Tag)
    ensures
        final(text)@ == old(text)@ + tag_text(tag@),
{
    text.append("<color=#");
    push_hex_byte(text, tag.color.r);
    push_hex_byte(text, tag.color.g);
    push_hex_byte(text, tag.color.b);
    text.append(">");
    text.append(tag.name.as_str());
    text.append("</color>");
    proof {
        assert(text@ =~= old(text)@ + tag_text(tag@));
    }
}

/// The description of a fleet with its tags in front.
pub fn describe(tags: &Vec<Tag>, description: &str) -> (text: String)
    ensures
        text@ == described(tags_view(tags@), description@),
{
    let mut text = "Tags: ".to_owned();
    let mut i: usize = 0;
    proof {
        assert(tags_view(tags@).take(0) =~= Seq::empty());
        assert(text@ =~= "Tags: "@ + tags_text(tags_view(tags@).take(0)));
    }
    while i < tags.len()
        invariant
            i <= tags.len(),
            text@ == "Tags: "@ + tags_text(tags_view(tags@).take(i as int)),
        decreases tags.len() - i,
    {
        let ghost all = tags_view(tags@);
        let ghost before = text@;
        if i > 0 {
            text.append(" ");
        }
        push_tag(&mut text, &tags[i]);
        proof {
            assert(all.take(i + 1).drop_last() =~= all.take(i as int));
            assert(all.take(i + 1).last() == tags@[i as int]@);
            if i == 0 {
                assert(all.take(1)[0] == tags@[0]@);
                assert(text@ =~= "Tags: "@ + tags_text(all.take(1)));
            } else {
                assert(text@ =~= "Tags: "@ + tags_text(all.take(i + 1)));
            }
        }
        i += 1;
    }
    proof {
        assert(tags_view(tags@).take(tags.len() as int) =~= tags_view(tags@));
    }
    text.append("\n");
    text.append(description);
    text
}

/// The colours of the tags that have been used, by the name of the tag.
#[derive(Debug, Clone, PartialEq, Eq)]
pub struct TagsRepository {
    /// The tags in the order in which they were added; a later one wins
    /// over an earlier one of the same name.
    tags: Vec<Tag>,
}

/// The tags as a map from their names; a later tag wins over an earlier one.
pub open spec fn tags_map(tags: Seq<Tag>) -> Map<Seq<char>, Color>
    decreases tags.len(),
{
    if tags.len() == 0 {
        Map::empty()
    } else {
        tags_map(tags.drop_last()).insert(tags.last().name@, tags.last().color)
    }
}

impl View for TagsRepository {
    type V = Map<Seq<char>, Color>;

    closed spec fn view(&self) -> Map<Seq<char>, Color> {
        tags_map(self.tags@)
    }
}

impl Default for TagsRepository {
    fn default() -> (repository: TagsRepository)
        ensures
            repository@ == Map::<Seq<char>, Color>::empty(),
    {
        TagsRepository::new()
    }
}

impl TagsRepository {
    /// A repository without tags.
    pub fn new() -> (repository: TagsRepository)
        ensures
            repository@ == Map::<Seq<char>, Color>::empty(),
    {
        TagsRepository { tags: Vec::new() }
    }

    /// Notes the colour of a tag, in place of the colour noted for its name.
    pub fn add_tag(&mut self, name: String, color: Color)
        ensures
            final(self)@ == old(self)@.insert(name@, color),
    {
        let ghost before = self.tags@;
        self.tags.push(Tag { name, color });
        proof {
            assert(self.tags@.drop_last() =~= before);
        }
    }

    /// The colour noted for the name of a tag.
    pub fn get_tag(&self, name: &str) -> (color: Option<Color>)
        ensures
            match color {
                Some(color) => self@.contains_key(name@) && self@[name@] == color,
                None => !self@.contains_key(name@),
            },
    {
        let mut i: usize = self.tags.len();
        proof {
            assert(self.tags@.take(i as int) =~= self.tags@);
        }
        while i > 0
            invariant
                i <= self.tags.len(),
                self@.contains_key(name@) == tags_map(self.tags@.take(i as int)).contains_key(
                    name@,
                ),
                self@.contains_key(name@) ==> self@[name@] == tags_map(
                    self.tags@.take(i as int),
                )[name@],
            decreases i,
        {
            proof {
                assert(self.tags@.take(i as int).last() == self.tags@[i - 1]);
                assert(self.tags@.take(i as int).drop_last() =~= self.tags@.take(i - 1));
            }
            if crate::text::str_eq(self.tags[i - 1].name.as_str(), name) {
                return Some(self.tags[i - 1].color);
            }
            i -= 1;
        }
        None
    }

    /// The tags noted: each name that has a colour, once, with the colour noted for it last.
    pub fn tags(&self) -> (tags: Vec<Tag>)
        ensures
            forall|name: Seq<char>|
                self@.contains_key(name) ==> exists|k: int|
                    0 <= k < tags.len() && (#[trigger] tags[k]).name@ == name,
            forall|k: int|
                0 <= k < tags.len() ==> self@.contains_key((#[trigger] tags[k]).name@)
                    && self@[tags[k].name@] == tags[k].color,
            forall|a: int, b: int|
                0 <= a < b < tags.len() ==> (#[trigger] tags[a]).name@ != (#[trigger] tags[b]).name@,
    {
        let mut tags: Vec<Tag> = Vec::new();
        let mut seen = TagsRepository::new();
        let mut i: usize = self.tags.len();
        while i > 0
            invariant
                i <= self.tags.len(),
                forall|k: int|
                    0 <= k < tags.len() ==> self@.contains_key((#[trigger] tags[k]).name@)
                        && self@[tags[k].name@] == tags[k].color,
                forall|k: int| 0 <= k < tags.len() ==> seen@.contains_key((#[trigger] tags[k]).name@),
                forall|j: int|
                    i <= j < self.tags.len() ==> seen@.contains_key((#[trigger] self.tags[j]).name@),
                forall|name: Seq<char>|
                    seen@.contains_key(name) ==> exists|k: int|
                        0 <= k < tags.len() && (#[trigger] tags[k]).name@ == name,
                forall|a: int, b: int|
                    0 <= a < b < tags.len() ==> (#[trigger] tags[a]).name@ != (
                    #[trigger] tags[b]).name@,
            decreases i,
        {
            i -= 1;
            let tag = &self.tags[i];
            proof {
                lemma_tags_map_keys(self.tags@, tag.name@);
                assert(self.tags@[i as int].name@ == tag.name@);
            }
            if seen.get_tag(tag.name.as_str()).is_none() {
                match self.get_tag(tag.name.as_str()) {
                    Some(color) => {
                        let ghost before = tags@;
                        let ghost old_seen = seen@;
                        let noted = Tag { name: tag.name.clone(), color };
                        seen.add_tag(tag.name.clone(), color);
                        tags.push(noted);
                        proof {
                            assert forall|name: Seq<char>| seen@.contains_key(name) implies exists|
                                k: int,
                            | 0 <= k < tags.len() && (#[trigger] tags[k]).name@ == name by {
                                if name == noted.name@ {
                                    assert(tags[tags.len() - 1].name@ == name);
                                } else {
                                    assert(old_seen.contains_key(name));
                                    let k = choose|k: int|
                                        0 <= k < before.len() && (#[trigger] before[k]).name@
                                            == name;
                                    assert(tags[k].name@ == name);
                                }
                            }
                            assert forall|a: int, b: int| 0 <= a < b < tags.len() implies (
                            #[trigger] tags[a]).name@ != (#[trigger] tags[b]).name@ by {
                                if b == tags.len() - 1 {
                                    assert(before[a] == tags[a]);
                                    assert(old_seen.contains_key(before[a].name@));
                                } else {
                                    assert(before[a].name@ != before[b].name@);
                                }
                            }
                        }
                    },
                    None => {},
                }
            }
        }
        proof {
            assert forall|name: Seq<char>| self@.contains_key(name) implies exists|k: int|
                0 <= k < tags.len() && (#[trigger] tags[k]).name@ == name by {
                lemma_tags_map_keys(self.tags@, name);
                let j = choose|j: int|
                    0 <= j < self.tags.len() && (#[trigger] self.tags[j]).name@ == name;
                assert(seen@.contains_key(self.tags[j].name@));
            }
        }
        tags
    }
}

/// The map holds a name where a tag has it.
pub proof fn lemma_tags_map_keys(tags: Seq<Tag>, name: Seq<char>)
    ensures
        tags_map(tags).contains_key(name) <==> exists|i: int|
            0 <= i < tags.len() && (#[trigger] tags[i]).name@ == name,
    decreases tags.len(),
{
    if tags.len() > 0 {
        let rest = tags.drop_last();
        lemma_tags_map_keys(rest, name);
        if tags_map(tags).contains_key(name) {
            if tags.last().name@ == name {
                assert(tags[tags.len() - 1].name@ == name);
            } else {
                let i = choose|i: int| 0 <= i < rest.len() && (#[trigger] rest[i]).name@ == name;
                assert(tags[i].name@ == name);
            }
        }
        if exists|i: int| 0 <= i < tags.len() && (#[trigger] tags[i]).name@ == name {
            let i = choose|i: int| 0 <= i < tags.len() && (#[trigger] tags[i]).name@ == name;
            if i < tags.len() - 1 {
                assert(rest[i].name@ == name);
            }
        }
    }
}

/// Where a search finds a place, the pattern stands there.
pub proof fn lemma_found(s: Seq<char>, pattern: Seq<char>, from: int)
    requires
        find_from(s, pattern, from) != -1,
    ensures
        stands_at(s, pattern, find_from(s, pattern, from)),
    decreases s.len() - from,
{
    if !(from < 0 || pattern.len() == 0 || from + pattern.len() > s.len()) && !stands_at(
        s,
        pattern,
        from,
    ) {
        lemma_found(s, pattern, from + 1);
    }
}

/// The fleet with the description `description` and the tags in front of
/// it.
pub fn save_description(fleet: Fleet, tags: &Vec<Tag>, description: &str) -> (new: Fleet)
    ensures
        new == (Fleet { description: new.description, ..fleet }),
        new.description matches Some(text) && text@ == described(
            tags_view(tags@),
            description@,
        ),
{
    Fleet {
        xmlns_xsd: fleet.xmlns_xsd,
        xmlns_xsi: fleet.xmlns_xsi,
        text: fleet.text,
        mod_dependencies: fleet.mod_dependencies,
        description: Some(describe(tags, description)),
        craft_types: fleet.craft_types,
        missile_types: fleet.missile_types,
        name: fleet.name,
        version: fleet.version,
        total_points: fleet.total_points,
        faction_key: fleet.faction_key,
        sort_override_order: fleet.sort_override_order,
        ships: fleet.ships,
    }
}

} // verus!
