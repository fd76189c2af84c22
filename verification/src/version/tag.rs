//! Versions found inside a tag: up to three numbers separated by dots, with
//! the text around them kept so that the tag can be written out again.

use crate::text::{
    all_digits, append_chars, chars_of, decimal_text, decimal_value, lemma_pad_of_value,
    lemma_text_of_value, pad_left, padded_chars, parse_decimal, same_chars, slice_chars, string_of,
};
use crate::status::{Status, StatusModel};
use crate::version::scan::{best_found, best_span, lemma_best_scan, Found, Span};
use std::cmp::Ordering;
use vstd::prelude::*;

verus! {

/// One number of a version. `length` is the number of characters the number
/// was written with when it was written with leading zeros, and 0 otherwise.
#[derive(Clone, Copy, Debug, PartialEq, Eq, Structural)]
pub struct StandardVersionPart {
    pub value: u32,
    pub length: u8,
}

impl Default for StandardVersionPart {
    fn default() -> (r: Self)
        ensures
            r == (StandardVersionPart { value: 0, length: 0 }),
    {
        StandardVersionPart { value: 0, length: 0 }
    }
}

/// The width that is kept for the numeral `t`: its length when it is written
/// with leading zeros, 0 when it is not. The single digit `"0"` has no
/// leading zero.
pub open spec fn kept_width(t: Seq<char>) -> nat {
    if t.len() > 1 && t[0] == '0' {
        t.len()
    } else {
        0
    }
}

/// The numeral `t` can be kept as a part: its value fits 32 bits and its
/// width fits 8 bits.
pub open spec fn storable(t: Seq<char>) -> bool {
    &&& t.len() >= 1
    &&& all_digits(t)
    &&& decimal_value(t) <= u32::MAX
    &&& kept_width(t) <= u8::MAX
}

impl StandardVersionPart {
    /// The part that the numeral `t` is kept as.
    pub open spec fn of(t: Seq<char>) -> Self {
        StandardVersionPart { value: decimal_value(t) as u32, length: kept_width(t) as u8 }
    }

    /// The numeral of this part: its value, filled up with zeros to its width.
    pub open spec fn text(self) -> Seq<char> {
        pad_left(decimal_text(self.value as nat), self.length as nat)
    }

    /// Reads a part from the numeral `v[start..end]`, or `None` when it cannot
    /// be kept.
    pub fn from_chars(v: &Vec<char>, start: usize, end: usize) -> (r: Option<Self>)
        requires
            start < end <= v.len(),
            all_digits(v@.subrange(start as int, end as int)),
        ensures
            r is Some <==> storable(v@.subrange(start as int, end as int)),
            r matches Some(p) ==> p == Self::of(v@.subrange(start as int, end as int)),
    {
        let ghost t = v@.subrange(start as int, end as int);
        assert(t[0] == v@[start as int]);
        let zero: bool = v[start] == '0';
        let n: usize = end - start;
        if zero && n > 1 && n > 255 {
            return None;
        }
        match parse_decimal(v, start, end) {
            None => None,
            Some(value) => {
                let length: u8 = if zero && n > 1 {
                    n as u8
                } else {
                    0
                };
                Some(StandardVersionPart { value, length })
            },
        }
    }

    /// Reads a part from a run of digits.
    pub fn from_split(split: &str) -> (r: Self)
        requires
            storable(split@),
        ensures
            r == Self::of(split@),
    {
        let v = chars_of(split);
        assert(v@.subrange(0, v.len() as int) =~= split@);
        match Self::from_chars(&v, 0, v.len()) {
            Some(p) => p,
            None => StandardVersionPart { value: 0, length: 0 },
        }
    }

    /// The part as it is written in a tag.
    pub fn to_chars(&self) -> (r: Vec<char>)
        ensures
            r@ == self.text(),
    {
        padded_chars(self.value, self.length as usize)
    }

    /// The part as it is written in a tag.
    pub fn to_string(&self) -> (r: String)
        ensures
            r@ == self.text(),
    {
        string_of(&self.to_chars())
    }
}

/// A part that was read from a numeral is written out as that numeral.
pub proof fn lemma_part_text(t: Seq<char>, p: StandardVersionPart)
    requires
        storable(t),
        p == StandardVersionPart::of(t),
    ensures
        p.text() == t,
{
    lemma_pad_of_value(t);
    if kept_width(t) == 0 {
        if t.len() == 1 {
        } else {
            lemma_text_of_value(t);
        }
    }
}

/// How two numbers compare.
pub open spec fn number_order(a: u32, b: u32) -> Ordering {
    if a < b {
        Ordering::Less
    } else if a > b {
        Ordering::Greater
    } else {
        Ordering::Equal
    }
}

/// How two parts compare: by value when they are written with the same
/// width, and not at all otherwise.
pub open spec fn part_order(a: StandardVersionPart, b: StandardVersionPart) -> Option<Ordering> {
    if a.length == b.length {
        Some(number_order(a.value, b.value))
    } else {
        None
    }
}

impl PartialOrd for StandardVersionPart {
    fn partial_cmp(&self, other: &Self) -> (r: Option<Ordering>) {
        if self.length == other.length {
            if self.value < other.value {
                Some(Ordering::Less)
            } else if self.value > other.value {
                Some(Ordering::Greater)
            } else {
                Some(Ordering::Equal)
            }
        } else {
            None
        }
    }
}

impl vstd::std_specs::cmp::PartialOrdSpecImpl for StandardVersionPart {
    open spec fn obeys_partial_cmp_spec() -> bool {
        true
    }

    open spec fn partial_cmp_spec(&self, other: &Self) -> Option<Ordering> {
        part_order(*self, *other)
    }
}

/// Parts written with different widths do not compare: neither is less than,
/// equal to or greater than the other.
pub proof fn lemma_widths_differ(a: StandardVersionPart, b: StandardVersionPart)
    requires
        a.length != b.length,
    ensures
        part_order(a, b) is None,
        part_order(b, a) is None,
{
}

/// A version found in a tag, with the text around it. Minor and patch
/// numbers are optional.
#[derive(Debug, PartialEq)]
pub struct StandardVersion {
    pub major: StandardVersionPart,
    pub minor: Option<StandardVersionPart>,
    pub patch: Option<StandardVersionPart>,
    /// The text of the tag before the version.
    pub prefix: String,
    /// The text of the tag after the version.
    pub suffix: String,
}

/// A version with the text around it as plain text.
pub struct TagModel {
    pub major: StandardVersionPart,
    pub minor: Option<StandardVersionPart>,
    pub patch: Option<StandardVersionPart>,
    pub prefix: Seq<char>,
    pub suffix: Seq<char>,
}

/// The text that stands for a number in a template.
pub open spec fn placeholder() -> Seq<char> {
    seq!['{', '}']
}

impl TagModel {
    /// The version as it is written in the tag.
    pub open spec fn numbers(self) -> Seq<char> {
        self.major.text() + (match self.minor {
            Some(m) => seq!['.'] + m.text(),
            None => Seq::empty(),
        }) + (match self.patch {
            Some(p) => seq!['.'] + p.text(),
            None => Seq::empty(),
        })
    }

    /// The version with a placeholder in the place of each number.
    pub open spec fn placeholders(self) -> Seq<char> {
        placeholder() + (match self.minor {
            Some(m) => seq!['.'] + placeholder(),
            None => Seq::empty(),
        }) + (match self.patch {
            Some(p) => seq!['.'] + placeholder(),
            None => Seq::empty(),
        })
    }

    /// The tag: the numbers between the text that stood around them.
    pub open spec fn rendered(self) -> Seq<char> {
        self.prefix + self.numbers() + self.suffix
    }

    /// The template: the tag with a placeholder in the place of each number.
    pub open spec fn template(self) -> Seq<char> {
        self.prefix + self.placeholders() + self.suffix
    }
}

/// What is left of `template` when the `cut` characters from `at` on are
/// replaced by `with`.
pub open spec fn substituted(template: Seq<char>, at: int, cut: int, with: Seq<char>) -> Seq<
    char,
> {
    template.subrange(0, at) + with + template.subrange(at + cut, template.len() as int)
}

impl View for StandardVersion {
    type V = TagModel;

    open spec fn view(&self) -> TagModel {
        TagModel {
            major: self.major,
            minor: self.minor,
            patch: self.patch,
            prefix: self.prefix@,
            suffix: self.suffix@,
        }
    }
}

/// Every number of the version found at `f` can be kept.
pub open spec fn keeps(s: Seq<char>, f: Found) -> bool {
    &&& storable(f.major(s))
    &&& f.has_minor() ==> storable(f.minor(s))
    &&& f.has_patch() ==> storable(f.patch(s))
}

/// The version found at `f` in the tag `s`, with the text around it.
pub open spec fn tag_model(s: Seq<char>, f: Found) -> TagModel {
    TagModel {
        major: StandardVersionPart::of(f.major(s)),
        minor: if f.has_minor() {
            Some(StandardVersionPart::of(f.minor(s)))
        } else {
            None
        },
        patch: if f.has_patch() {
            Some(StandardVersionPart::of(f.patch(s)))
        } else {
            None
        },
        prefix: s.subrange(0, f.start),
        suffix: s.subrange(f.end, s.len() as int),
    }
}

/// What a tag is read as: the version with the most numbers, the first of
/// those; nothing when the tag holds no digit or a number of that version
/// cannot be kept.
pub open spec fn parsed(s: Seq<char>) -> Option<TagModel> {
    match best_found(s) {
        Some(f) => if keeps(s, f) {
            Some(tag_model(s, f))
        } else {
            None
        },
        None => None,
    }
}

/// Writing a version that was read from a tag gives the tag back.
pub proof fn lemma_round_trip(s: Seq<char>)
    requires
        parsed(s) is Some,
    ensures
        parsed(s).unwrap().rendered() == s,
{
    let f = best_found(s).unwrap();
    lemma_best_scan(s, 0, None);
    lemma_rendered(s, f);
}

/// Putting the numbers of a version that was read from a tag into the
/// placeholders of its template gives the tag back.
pub proof fn lemma_template_round_trip(s: Seq<char>)
    requires
        parsed(s) is Some,
    ensures
        substituted(
            parsed(s).unwrap().template(),
            parsed(s).unwrap().prefix.len() as int,
            parsed(s).unwrap().placeholders().len() as int,
            parsed(s).unwrap().numbers(),
        ) == s,
{
    let m = parsed(s).unwrap();
    lemma_round_trip(s);
    let t = m.template();
    let at = m.prefix.len() as int;
    let cut = m.placeholders().len() as int;
    assert(t.subrange(0, at) =~= m.prefix);
    assert(t.subrange(at + cut, t.len() as int) =~= m.suffix);
}

/// The version found at a place that fits the tag is written out as the tag.
pub proof fn lemma_rendered(s: Seq<char>, f: Found)
    requires
        f.fits(s),
        keeps(s, f),
    ensures
        tag_model(s, f).rendered() == s,
{
    let m = tag_model(s, f);
    lemma_part_text(f.major(s), m.major);
    if f.has_minor() {
        lemma_part_text(f.minor(s), m.minor.unwrap());
    }
    if f.has_patch() {
        lemma_part_text(f.patch(s), m.patch.unwrap());
    }
    assert(m.numbers() =~= s.subrange(f.start, f.end));
    assert(m.rendered() =~= s);
}

impl StandardVersion {
    /// Reads the version of a tag. Fails when the tag holds no version, or
    /// when a number of its version is too large to be kept.
    pub fn from_tag(tag: &str) -> (r: Result<Self, ()>)
        ensures
            match parsed(tag@) {
                Some(m) => r is Ok && r.unwrap()@ == m,
                None => r is Err,
            },
            r matches Ok(v) ==> v@.rendered() == tag@,
    {
        let v = chars_of(tag);
        let found = best_span(&v);
        match found {
            None => Err(()),
            Some(f) => {
                proof {
                    if keeps(v@, f.model()) {
                        lemma_rendered(v@, f.model());
                    }
                }
                Self::at_span(&v, f)
            },
        }
    }

    /// The version at `f`, when its numbers can be kept.
    fn at_span(v: &Vec<char>, f: Span) -> (r: Result<Self, ()>)
        requires
            f.model().fits(v@),
        ensures
            r is Ok <==> keeps(v@, f.model()),
            r matches Ok(x) ==> x@ == tag_model(v@, f.model()),
    {
        let major = match StandardVersionPart::from_chars(v, f.start, f.major_end) {
            Some(p) => p,
            None => {
                return Err(());
            },
        };
        let minor = if f.minor_end > f.major_end {
            match StandardVersionPart::from_chars(v, f.major_end + 1, f.minor_end) {
                Some(p) => Some(p),
                None => {
                    return Err(());
                },
            }
        } else {
            None
        };
        let patch = if f.end > f.minor_end {
            match StandardVersionPart::from_chars(v, f.minor_end + 1, f.end) {
                Some(p) => Some(p),
                None => {
                    return Err(());
                },
            }
        } else {
            None
        };
        let prefix = string_of(&slice_chars(v, 0, f.start));
        let suffix = string_of(&slice_chars(v, f.end, v.len()));
        Ok(StandardVersion { major, minor, patch, prefix, suffix })
    }

    /// The version as it is written in the tag.
    pub fn numbers(&self) -> (r: Vec<char>)
        ensures
            r@ == self@.numbers(),
    {
        let mut r = self.major.to_chars();
        let ghost major = r@;
        match self.minor {
            Some(m) => {
                r.push('.');
                append_chars(&mut r, &m.to_chars());
                assert(r@ =~= major + (seq!['.'] + m.text()));
            },
            None => {
                assert(r@ =~= major + Seq::<char>::empty());
            },
        }
        let ghost upto = r@;
        match self.patch {
            Some(p) => {
                r.push('.');
                append_chars(&mut r, &p.to_chars());
                assert(r@ =~= upto + (seq!['.'] + p.text()));
            },
            None => {
                assert(r@ =~= upto + Seq::<char>::empty());
            },
        }
        r
    }

    /// The tag that the version was read from.
    pub fn to_string(&self) -> (r: String)
        ensures
            r@ == self@.rendered(),
    {
        let mut r = chars_of(self.prefix.as_str());
        append_chars(&mut r, &self.numbers());
        append_chars(&mut r, &chars_of(self.suffix.as_str()));
        string_of(&r)
    }

    /// The template as characters.
    pub fn template_chars(&self) -> (r: Vec<char>)
        ensures
            r@ == self@.template(),
    {
        let mut r = chars_of(self.prefix.as_str());
        let ghost prefix = r@;
        r.push('{');
        r.push('}');
        assert(r@ =~= prefix + placeholder());
        let ghost first = r@;
        match self.minor {
            Some(m) => {
                r.push('.');
                r.push('{');
                r.push('}');
                assert(r@ =~= first + (seq!['.'] + placeholder()));
            },
            None => {
                assert(r@ =~= first + Seq::<char>::empty());
            },
        }
        let ghost upto = r@;
        match self.patch {
            Some(p) => {
                r.push('.');
                r.push('{');
                r.push('}');
                assert(r@ =~= upto + (seq!['.'] + placeholder()));
            },
            None => {
                assert(r@ =~= upto + Seq::<char>::empty());
            },
        }
        let ghost body = r@;
        append_chars(&mut r, &chars_of(self.suffix.as_str()));
        assert(r@ =~= self@.template());
        r
    }

    /// The tag with a placeholder in the place of each number.
    pub fn format_str(&self) -> (r: String)
        ensures
            r@ == self@.template(),
    {
        string_of(&self.template_chars())
    }

    /// A copy of the version.
    pub fn duplicate(&self) -> (r: Self)
        ensures
            r@ == self@,
    {
        StandardVersion {
            major: self.major,
            minor: self.minor,
            patch: self.patch,
            prefix: self.prefix.clone(),
            suffix: self.suffix.clone(),
        }
    }
}

/// How two optional parts compare: two absent parts are equal, two present
/// parts compare as parts, and an absent part does not compare with a
/// present one.
pub open spec fn option_order(
    a: Option<StandardVersionPart>,
    b: Option<StandardVersionPart>,
) -> Option<Ordering> {
    match (a, b) {
        (None, None) => Some(Ordering::Equal),
        (Some(x), Some(y)) => part_order(x, y),
        _ => None,
    }
}

/// How two versions compare: not at all when their templates differ, else by
/// major, then minor, then patch number.
pub open spec fn tag_order(a: TagModel, b: TagModel) -> Option<Ordering> {
    if a.template() != b.template() {
        None
    } else {
        match part_order(a.major, b.major) {
            Some(Ordering::Equal) => match option_order(a.minor, b.minor) {
                Some(Ordering::Equal) => option_order(a.patch, b.patch),
                other => other,
            },
            other => other,
        }
    }
}

/// What a remote version means for an image that runs the local one: the
/// kind of update when the remote version is newer, up to date when the two
/// are equal, and unknown when the remote version is older or does not
/// compare with the local one.
pub open spec fn classified(remote: TagModel, local: TagModel) -> StatusModel {
    match tag_order(remote, local) {
        Some(Ordering::Greater) => if part_order(remote.major, local.major) == Some(
            Ordering::Greater,
        ) {
            StatusModel::UpdateMajor
        } else if option_order(remote.minor, local.minor) == Some(Ordering::Greater) {
            StatusModel::UpdateMinor
        } else {
            StatusModel::UpdatePatch
        },
        Some(Ordering::Equal) => StatusModel::UpToDate,
        _ => StatusModel::Unknown("tag does not exist"@),
    }
}

/// Compares two optional parts.
pub fn compare_parts(a: &Option<StandardVersionPart>, b: &Option<StandardVersionPart>) -> (r:
    Option<Ordering>)
    ensures
        r == option_order(*a, *b),
{
    match (a, b) {
        (None, None) => Some(Ordering::Equal),
        (Some(x), Some(y)) => x.partial_cmp(y),
        _ => None,
    }
}

impl PartialOrd for StandardVersion {
    fn partial_cmp(&self, other: &Self) -> (r: Option<Ordering>) {
        if !same_chars(&self.template_chars(), &other.template_chars()) {
            return None;
        }
        match self.major.partial_cmp(&other.major) {
            Some(Ordering::Equal) => match compare_parts(&self.minor, &other.minor) {
                Some(Ordering::Equal) => compare_parts(&self.patch, &other.patch),
                other => other,
            },
            other => other,
        }
    }
}

impl vstd::std_specs::cmp::PartialOrdSpecImpl for StandardVersion {
    open spec fn obeys_partial_cmp_spec() -> bool {
        true
    }

    open spec fn partial_cmp_spec(&self, other: &Self) -> Option<Ordering> {
        tag_order(self@, other@)
    }
}

impl StandardVersion {
    /// What this version, found at the registry, means for an image that
    /// runs `base`.
    pub fn to_status(&self, base: &Self) -> (r: Status)
        ensures
            r@ == classified(self@, base@),
    {
        match self.partial_cmp(base) {
            Some(Ordering::Greater) => {
                let major = self.major.partial_cmp(&base.major);
                let minor = compare_parts(&self.minor, &base.minor);
                if is_greater(major) {
                    Status::UpdateMajor
                } else if is_greater(minor) {
                    Status::UpdateMinor
                } else {
                    Status::UpdatePatch
                }
            },
            Some(Ordering::Equal) => Status::UpToDate,
            _ => Status::Unknown("tag does not exist".to_owned()),
        }
    }
}

/// Whether a comparison came out as greater.
pub fn is_greater(o: Option<Ordering>) -> (r: bool)
    ensures
        r == (o == Some(Ordering::Greater)),
{
    match o {
        Some(Ordering::Greater) => true,
        _ => false,
    }
}

/// Versions with different templates do not compare.
pub proof fn lemma_templates_differ(a: TagModel, b: TagModel)
    requires
        a.template() != b.template(),
    ensures
        tag_order(a, b) is None,
        classified(a, b) is Unknown,
{
}

/// A remote version is a major update exactly when its major number is
/// greater; a minor update when the major numbers are equal and its minor
/// number is greater; a patch update when major and minor numbers are equal
/// and its patch number is greater; and no update when all three are equal.
pub proof fn lemma_classified(remote: TagModel, local: TagModel)
    requires
        remote.template() == local.template(),
    ensures
        classified(remote, local) is UpdateMajor <==> part_order(remote.major, local.major)
            == Some(Ordering::Greater),
        classified(remote, local) is UpdateMinor <==> part_order(remote.major, local.major)
            == Some(Ordering::Equal) && option_order(remote.minor, local.minor) == Some(
            Ordering::Greater,
        ),
        classified(remote, local) is UpdatePatch <==> part_order(remote.major, local.major)
            == Some(Ordering::Equal) && option_order(remote.minor, local.minor) == Some(
            Ordering::Equal,
        ) && option_order(remote.patch, local.patch) == Some(Ordering::Greater),
        classified(remote, local) is UpToDate <==> part_order(remote.major, local.major) == Some(
            Ordering::Equal,
        ) && option_order(remote.minor, local.minor) == Some(Ordering::Equal) && option_order(
            remote.patch,
            local.patch,
        ) == Some(Ordering::Equal),
{
}

} // verus!
