//! Raw-record schema: the shapes a record arrives in and the strict parsing
//! rules that turn its fields into plain values. Unrecognized labels and
//! malformed numbers are fatal schema violations, never defaults.

use vstd::prelude::*;
use vstd::string::StrSliceExecFns;
use vstd::string::StringExecFns;
use crate::text::{
    all_digits, check_blank, digit_val, digits_val, find_char, first_pos, is_blank, is_digit,
    is_u64_digits, parse_u64, str_eq,
};

verus! {

/// Why ingestion rejected a record; any of these aborts the whole run.
#[derive(Clone, Copy, PartialEq, Eq, Structural, Debug)]
pub enum SchemaError {
    /// The category label is outside the fixed set.
    BadCategory,
    /// A required numeric field is null, malformed or out of range.
    BadNumber,
    /// A tag carries an unrecognized category keyword.
    BadTagPrefix,
}

/// How a numeric field arrived in the raw input: absent, as a number, or as
/// a numeric string. Both non-null forms must parse to the same value.
pub enum RawValue {
    Null,
    Integer(u64),
    Text(String),
}

/// The value a required unsigned field denotes, if any.
pub open spec fn spec_u64_value(v: RawValue) -> Option<u64> {
    match v {
        RawValue::Null => Option::None,
        RawValue::Integer(n) => Option::Some(n),
        RawValue::Text(s) => if is_u64_digits(s@) {
            Option::Some(digits_val(s@) as u64)
        } else {
            Option::None
        },
    }
}

/// The value an optional unsigned field denotes: `None` of `Some` means a
/// genuine null, the outer `None` a malformed field.
pub open spec fn spec_opt_u64_value(v: RawValue) -> Option<Option<u64>> {
    match v {
        RawValue::Null => Option::Some(Option::None),
        RawValue::Integer(n) => Option::Some(Option::Some(n)),
        RawValue::Text(s) => if is_u64_digits(s@) {
            Option::Some(Option::Some(digits_val(s@) as u64))
        } else {
            Option::None
        },
    }
}

/// The value a required 32-bit field denotes, if any.
pub open spec fn spec_u32_value(v: RawValue) -> Option<u32> {
    match spec_u64_value(v) {
        Option::Some(n) => if n <= u32::MAX {
            Option::Some(n as u32)
        } else {
            Option::None
        },
        Option::None => Option::None,
    }
}

/// A required field: integer or numeric string, never null.
pub fn u64_field(v: &RawValue) -> (r: Result<u64, SchemaError>)
    ensures
        match spec_u64_value(*v) {
            Option::Some(n) => r == Ok::<u64, SchemaError>(n),
            Option::None => r == Err::<u64, SchemaError>(SchemaError::BadNumber),
        },
{
    match v {
        RawValue::Null => Err(SchemaError::BadNumber),
        RawValue::Integer(n) => Ok(*n),
        RawValue::Text(s) => match parse_u64(s.as_str()) {
            Some(n) => Ok(n),
            None => Err(SchemaError::BadNumber),
        },
    }
}

/// An optional identifier field: null is acceptable and means absent.
pub fn optional_u64_field(v: &RawValue) -> (r: Result<Option<u64>, SchemaError>)
    ensures
        match spec_opt_u64_value(*v) {
            Option::Some(n) => r == Ok::<Option<u64>, SchemaError>(n),
            Option::None => r == Err::<Option<u64>, SchemaError>(SchemaError::BadNumber),
        },
{
    match v {
        RawValue::Null => Ok(None),
        RawValue::Integer(n) => Ok(Some(*n)),
        RawValue::Text(s) => match parse_u64(s.as_str()) {
            Some(n) => Ok(Some(n)),
            None => Err(SchemaError::BadNumber),
        },
    }
}

/// A required field that must fit in 32 bits.
pub fn u32_field(v: &RawValue) -> (r: Result<u32, SchemaError>)
    ensures
        match spec_u32_value(*v) {
            Option::Some(n) => r == Ok::<u32, SchemaError>(n),
            Option::None => r == Err::<u32, SchemaError>(SchemaError::BadNumber),
        },
{
    match u64_field(v) {
        Ok(n) => if n <= u32::MAX as u64 {
            Ok(n as u32)
        } else {
            Err(SchemaError::BadNumber)
        },
        Err(e) => Err(e),
    }
}

/// A secondary display string that is empty or all whitespace is normalized
/// to absent, never stored as a zero-length handle.
pub fn empty_string_as_none(s: Option<String>) -> (r: Option<String>)
    ensures
        r == (match s {
            Option::None => Option::<String>::None,
            Option::Some(t) => if is_blank(t@) {
                Option::<String>::None
            } else {
                Option::Some(t)
            },
        }),
{
    match s {
        None => None,
        Some(t) => {
            if check_blank(t.as_str()) {
                None
            } else {
                Some(t)
            }
        },
    }
}

/// The closed set of category labels a record may carry.
#[derive(Clone, Copy, PartialEq, Eq, Structural, Debug)]
pub enum Category {
    Doujinshi,
    Manga,
    ArtistCG,
    GameCG,
    Western,
    NonH,
    ImageSet,
    Cosplay,
    AsianPorn,
    Misc,
    Private,
}

/// The fixed label-to-category mapping; anything else is a schema violation.
pub open spec fn spec_category_of(s: Seq<char>) -> Option<Category> {
    if s == "Doujinshi"@ {
        Option::Some(Category::Doujinshi)
    } else if s == "Manga"@ {
        Option::Some(Category::Manga)
    } else if s == "Artist CG"@ {
        Option::Some(Category::ArtistCG)
    } else if s == "Game CG"@ {
        Option::Some(Category::GameCG)
    } else if s == "Western"@ {
        Option::Some(Category::Western)
    } else if s == "Non-H"@ {
        Option::Some(Category::NonH)
    } else if s == "Image Set"@ {
        Option::Some(Category::ImageSet)
    } else if s == "Cosplay"@ {
        Option::Some(Category::Cosplay)
    } else if s == "Asian Porn"@ {
        Option::Some(Category::AsianPorn)
    } else if s == "Misc"@ {
        Option::Some(Category::Misc)
    } else if s == "private"@ {
        Option::Some(Category::Private)
    } else {
        Option::None
    }
}

/// The dense code a category is stored under, in label-table order.
pub open spec fn spec_category_code(c: Category) -> u8 {
    match c {
        Category::Doujinshi => 0,
        Category::Manga => 1,
        Category::ArtistCG => 2,
        Category::GameCG => 3,
        Category::Western => 4,
        Category::NonH => 5,
        Category::ImageSet => 6,
        Category::Cosplay => 7,
        Category::AsianPorn => 8,
        Category::Misc => 9,
        Category::Private => 10,
    }
}

impl Category {
    pub fn code(&self) -> (n: u8)
        ensures
            n == spec_category_code(*self),
    {
        match self {
            Category::Doujinshi => 0,
            Category::Manga => 1,
            Category::ArtistCG => 2,
            Category::GameCG => 3,
            Category::Western => 4,
            Category::NonH => 5,
            Category::ImageSet => 6,
            Category::Cosplay => 7,
            Category::AsianPorn => 8,
            Category::Misc => 9,
            Category::Private => 10,
        }
    }

    /// Validates a category label eagerly; an unrecognized label is fatal.
    pub fn parse(s: &str) -> (r: Result<Category, SchemaError>)
        ensures
            match spec_category_of(s@) {
                Option::Some(c) => r == Ok::<Category, SchemaError>(c),
                Option::None => r == Err::<Category, SchemaError>(SchemaError::BadCategory),
            },
    {
        if str_eq(s, "Doujinshi") {
            Ok(Category::Doujinshi)
        } else if str_eq(s, "Manga") {
            Ok(Category::Manga)
        } else if str_eq(s, "Artist CG") {
            Ok(Category::ArtistCG)
        } else if str_eq(s, "Game CG") {
            Ok(Category::GameCG)
        } else if str_eq(s, "Western") {
            Ok(Category::Western)
        } else if str_eq(s, "Non-H") {
            Ok(Category::NonH)
        } else if str_eq(s, "Image Set") {
            Ok(Category::ImageSet)
        } else if str_eq(s, "Cosplay") {
            Ok(Category::Cosplay)
        } else if str_eq(s, "Asian Porn") {
            Ok(Category::AsianPorn)
        } else if str_eq(s, "Misc") {
            Ok(Category::Misc)
        } else if str_eq(s, "private") {
            Ok(Category::Private)
        } else {
            Err(SchemaError::BadCategory)
        }
    }
}

/// The closed set of tag-category keywords, plus the case of a tag that
/// carries no keyword at all.
#[derive(Clone, Copy, PartialEq, Eq, Structural, Debug)]
pub enum TagPrefix {
    Other,
    Female,
    Male,
    Mixed,
    Language,
    Reclass,
    Parody,
    Character,
    Group,
    Artist,
    Cosplayer,
    Location,
    Temp,
    Unprefixed,
}

/// The fixed keyword-to-prefix mapping; `Unprefixed` is never written out,
/// it only stands for a tag with no colon.
pub open spec fn spec_prefix_of(k: Seq<char>) -> Option<TagPrefix> {
    if k == "other"@ {
        Option::Some(TagPrefix::Other)
    } else if k == "female"@ {
        Option::Some(TagPrefix::Female)
    } else if k == "male"@ {
        Option::Some(TagPrefix::Male)
    } else if k == "mixed"@ {
        Option::Some(TagPrefix::Mixed)
    } else if k == "language"@ {
        Option::Some(TagPrefix::Language)
    } else if k == "reclass"@ {
        Option::Some(TagPrefix::Reclass)
    } else if k == "parody"@ {
        Option::Some(TagPrefix::Parody)
    } else if k == "character"@ {
        Option::Some(TagPrefix::Character)
    } else if k == "group"@ {
        Option::Some(TagPrefix::Group)
    } else if k == "artist"@ {
        Option::Some(TagPrefix::Artist)
    } else if k == "cosplayer"@ {
        Option::Some(TagPrefix::Cosplayer)
    } else if k == "location"@ {
        Option::Some(TagPrefix::Location)
    } else if k == "temp"@ {
        Option::Some(TagPrefix::Temp)
    } else {
        Option::None
    }
}

/// The byte code a tag prefix is stored under, in keyword-table order.
pub open spec fn spec_prefix_code(p: TagPrefix) -> u8 {
    match p {
        TagPrefix::Other => 0,
        TagPrefix::Female => 1,
        TagPrefix::Male => 2,
        TagPrefix::Mixed => 3,
        TagPrefix::Language => 4,
        TagPrefix::Reclass => 5,
        TagPrefix::Parody => 6,
        TagPrefix::Character => 7,
        TagPrefix::Group => 8,
        TagPrefix::Artist => 9,
        TagPrefix::Cosplayer => 10,
        TagPrefix::Location => 11,
        TagPrefix::Temp => 12,
        TagPrefix::Unprefixed => 13,
    }
}

impl TagPrefix {
    pub fn code(&self) -> (n: u8)
        ensures
            n == spec_prefix_code(*self),
    {
        match self {
            TagPrefix::Other => 0,
            TagPrefix::Female => 1,
            TagPrefix::Male => 2,
            TagPrefix::Mixed => 3,
            TagPrefix::Language => 4,
            TagPrefix::Reclass => 5,
            TagPrefix::Parody => 6,
            TagPrefix::Character => 7,
            TagPrefix::Group => 8,
            TagPrefix::Artist => 9,
            TagPrefix::Cosplayer => 10,
            TagPrefix::Location => 11,
            TagPrefix::Temp => 12,
            TagPrefix::Unprefixed => 13,
        }
    }

    pub fn keyword(&self) -> (r: &'static str)
        ensures
            r@ == spec_keyword(*self),
    {
        match self {
            TagPrefix::Other => "other",
            TagPrefix::Female => "female",
            TagPrefix::Male => "male",
            TagPrefix::Mixed => "mixed",
            TagPrefix::Language => "language",
            TagPrefix::Reclass => "reclass",
            TagPrefix::Parody => "parody",
            TagPrefix::Character => "character",
            TagPrefix::Group => "group",
            TagPrefix::Artist => "artist",
            TagPrefix::Cosplayer => "cosplayer",
            TagPrefix::Location => "location",
            TagPrefix::Temp => "temp",
            TagPrefix::Unprefixed => "none",
        }
    }

    fn parse_keyword(k: &str) -> (r: Option<TagPrefix>)
        ensures
            r == spec_prefix_of(k@),
    {
        if str_eq(k, "other") {
            Some(TagPrefix::Other)
        } else if str_eq(k, "female") {
            Some(TagPrefix::Female)
        } else if str_eq(k, "male") {
            Some(TagPrefix::Male)
        } else if str_eq(k, "mixed") {
            Some(TagPrefix::Mixed)
        } else if str_eq(k, "language") {
            Some(TagPrefix::Language)
        } else if str_eq(k, "reclass") {
            Some(TagPrefix::Reclass)
        } else if str_eq(k, "parody") {
            Some(TagPrefix::Parody)
        } else if str_eq(k, "character") {
            Some(TagPrefix::Character)
        } else if str_eq(k, "group") {
            Some(TagPrefix::Group)
        } else if str_eq(k, "artist") {
            Some(TagPrefix::Artist)
        } else if str_eq(k, "cosplayer") {
            Some(TagPrefix::Cosplayer)
        } else if str_eq(k, "location") {
            Some(TagPrefix::Location)
        } else if str_eq(k, "temp") {
            Some(TagPrefix::Temp)
        } else {
            None
        }
    }
}

/// The keyword a prefix is written back out as; the no-keyword case is
/// written as its own word, which `parse` does not accept in turn.
pub open spec fn spec_keyword(p: TagPrefix) -> Seq<char> {
    match p {
        TagPrefix::Other => "other"@,
        TagPrefix::Female => "female"@,
        TagPrefix::Male => "male"@,
        TagPrefix::Mixed => "mixed"@,
        TagPrefix::Language => "language"@,
        TagPrefix::Reclass => "reclass"@,
        TagPrefix::Parody => "parody"@,
        TagPrefix::Character => "character"@,
        TagPrefix::Group => "group"@,
        TagPrefix::Artist => "artist"@,
        TagPrefix::Cosplayer => "cosplayer"@,
        TagPrefix::Location => "location"@,
        TagPrefix::Temp => "temp"@,
        TagPrefix::Unprefixed => "none"@,
    }
}

/// One raw tag after splitting: the tag value and its category keyword.
pub struct Tag {
    pub tag: String,
    pub prefix: TagPrefix,
}

/// What a raw tag string denotes: with no colon, the whole string is the
/// value and there is no keyword; with a colon, the left token must be a
/// recognized keyword and the right token is the value.
pub open spec fn spec_parse_tag(s: Seq<char>) -> Option<(TagPrefix, Seq<char>)> {
    let i = first_pos(s, ':');
    if i == s.len() {
        Option::Some((TagPrefix::Unprefixed, s))
    } else {
        match spec_prefix_of(s.take(i)) {
            Option::Some(p) => Option::Some((p, s.skip(i + 1))),
            Option::None => Option::None,
        }
    }
}

impl Tag {
    /// Splits a raw tag string on its first colon and validates the keyword;
    /// an unrecognized keyword is a fatal schema violation.
    pub fn parse(s: &str) -> (r: Result<Tag, SchemaError>)
        ensures
            match spec_parse_tag(s@) {
                Option::Some(pv) => r matches Ok(t) && t.prefix == pv.0 && t.tag@ == pv.1,
                Option::None => r == Err::<Tag, SchemaError>(SchemaError::BadTagPrefix),
            },
    {
        let n = s.unicode_len();
        let i = find_char(s, ':');
        proof {
            crate::text::lemma_first_pos(s@, ':');
        }
        if i == n {
            return Ok(Tag { tag: s.to_owned(), prefix: TagPrefix::Unprefixed });
        }
        let keyword = s.substring_char(0, i);
        proof {
            assert(keyword@ =~= s@.take(i as int));
        }
        match TagPrefix::parse_keyword(keyword) {
            Some(p) => {
                let value = s.substring_char(i + 1, n);
                proof {
                    assert(value@ =~= s@.skip(i + 1));
                }
                Ok(Tag { tag: value.to_owned(), prefix: p })
            },
            None => Err(SchemaError::BadTagPrefix),
        }
    }

    /// Writes the tag back out as `keyword:value`, the form raw tags arrive
    /// in; a tag with no keyword is written under the word for that case.
    pub fn render(&self) -> (r: String)
        ensures
            r@ == spec_keyword(self.prefix) + seq![':'] + self.tag@,
    {
        let mut s = String::from_str(self.prefix.keyword());
        s.append(":");
        proof {
            reveal_strlit(":");
            assert(":"@ =~= seq![':']);
        }
        s.append(self.tag.as_str());
        s
    }
}

/// Weight of the fractional digits of a rating with `n` of them: the rating
/// is stored in hundredths.
pub open spec fn spec_frac_scale(n: int) -> int {
    if n == 0 {
        100
    } else if n == 1 {
        10
    } else {
        1
    }
}

/// The hundredths a decimal rating string denotes: one or more integer
/// digits, then optionally a point and at most two fractional digits.
pub open spec fn spec_rating_centi(s: Seq<char>) -> Option<u32> {
    let d = first_pos(s, '.');
    let ip = s.take(d);
    let fp = if d < s.len() {
        s.skip(d + 1)
    } else {
        Seq::<char>::empty()
    };
    if ip.len() > 0 && all_digits(ip) && fp.len() <= 2 && all_digits(fp) {
        let cents = digits_val(ip) * 100 + digits_val(fp) * spec_frac_scale(fp.len() as int);
        if cents <= u32::MAX {
            Option::Some(cents as u32)
        } else {
            Option::None
        }
    } else {
        Option::None
    }
}

proof fn lemma_digits_val_le2(s: Seq<char>)
    requires
        all_digits(s),
        s.len() <= 2,
    ensures
        digits_val(s) <= 99,
        s.len() <= 1 ==> digits_val(s) <= 9,
        digits_val(s) >= 0,
{
    if s.len() > 0 {
        let t = s.drop_last();
        assert(all_digits(t));
        assert(is_digit(s.last()));
        assert(digit_val(s.last()) <= 9);
        if t.len() > 0 {
            let u = t.drop_last();
            assert(u.len() == 0);
            assert(digits_val(u) == 0);
            assert(is_digit(t.last()));
            assert(digits_val(t) == digits_val(u) * 10 + digit_val(t.last()));
            assert(digits_val(t) <= 9);
        } else {
            assert(digits_val(t) == 0);
        }
        assert(digits_val(s) == digits_val(t) * 10 + digit_val(s.last()));
    }
}

fn parse_rating_centi(s: &str) -> (r: Option<u32>)
    ensures
        r == spec_rating_centi(s@),
{
    let n = s.unicode_len();
    let d = find_char(s, '.');
    proof {
        crate::text::lemma_first_pos(s@, '.');
    }
    let ip = s.substring_char(0, d);
    proof {
        assert(ip@ =~= s@.take(d as int));
    }
    let fp = if d < n {
        s.substring_char(d + 1, n)
    } else {
        s.substring_char(n, n)
    };
    proof {
        if d < n {
            assert(fp@ =~= s@.skip(d + 1));
        } else {
            assert(fp@ =~= Seq::<char>::empty());
        }
    }
    let ghost ips = ip@;
    let ghost fps = fp@;
    let ipv = match parse_u64(ip) {
        Some(x) => x,
        None => {
            proof {
                if ips.len() > 0 && all_digits(ips) && fps.len() <= 2 && all_digits(fps) {
                    assert(digits_val(ips) > u64::MAX);
                    lemma_digits_val_le2(fps);
                    assert(digits_val(ips) * 100 > u32::MAX) by (nonlinear_arith)
                        requires
                            digits_val(ips) > u64::MAX;
                    assert(digits_val(fps) * spec_frac_scale(fps.len() as int) >= 0);
                }
            }
            return None;
        },
    };
    let nf = fp.unicode_len();
    if nf > 2 {
        return None;
    }
    let fv: u64 = if nf == 0 {
        0
    } else {
        match parse_u64(fp) {
            Some(x) => x,
            None => {
                proof {
                    if all_digits(fps) {
                        assert(digits_val(fps) > u64::MAX);
                        assert(digits_val(fps) * spec_frac_scale(fps.len() as int) > u32::MAX)
                            by (nonlinear_arith)
                            requires
                                digits_val(fps) > u64::MAX,
                                spec_frac_scale(fps.len() as int) >= 1;
                        assert(digits_val(ips) * 100 >= 0) by (nonlinear_arith)
                            requires
                                digits_val(ips) >= 0;
                    }
                }
                return None;
            },
        }
    };
    proof {
        lemma_digits_val_le2(fps);
    }
    if ipv > u32::MAX as u64 / 100 {
        proof {
            assert(digits_val(ips) * 100 > u32::MAX);
            assert(digits_val(fps) * spec_frac_scale(fps.len() as int) >= 0);
        }
        return None;
    }
    let scale: u64 = if nf == 2 {
        1
    } else if nf == 1 {
        10
    } else {
        100
    };
    let cents: u64 = ipv * 100 + fv * scale;
    if cents > u32::MAX as u64 {
        None
    } else {
        Some(cents as u32)
    }
}

/// The hundredths a raw rating field denotes: a number is whole stars, a
/// string is parsed as a decimal; null is never acceptable.
pub open spec fn spec_rating_value(v: RawValue) -> Option<u32> {
    match v {
        RawValue::Null => Option::None,
        RawValue::Integer(n) => if n * 100 <= u32::MAX {
            Option::Some((n * 100) as u32)
        } else {
            Option::None
        },
        RawValue::Text(s) => spec_rating_centi(s@),
    }
}

/// The rating field, stored in hundredths so the core stays integral.
pub fn rating_field(v: &RawValue) -> (r: Result<u32, SchemaError>)
    ensures
        match spec_rating_value(*v) {
            Option::Some(n) => r == Ok::<u32, SchemaError>(n),
            Option::None => r == Err::<u32, SchemaError>(SchemaError::BadNumber),
        },
{
    match v {
        RawValue::Null => Err(SchemaError::BadNumber),
        RawValue::Integer(n) => {
            if *n <= u32::MAX as u64 / 100 {
                Ok((*n * 100) as u32)
            } else {
                Err(SchemaError::BadNumber)
            }
        },
        RawValue::Text(s) => match parse_rating_centi(s.as_str()) {
            Some(c) => Ok(c),
            None => Err(SchemaError::BadNumber),
        },
    }
}

/// One raw transfer descriptor as it arrives: numeric fields in either
/// arrival form, a hash string and an optional display name.
pub struct Torrents1 {
    pub added: RawValue,
    pub fsize: RawValue,
    pub hash: String,
    pub name: Option<String>,
    pub tsize: RawValue,
}

/// One raw catalog record as it arrives, already shaped but unvalidated:
/// every field the transform reads, in its arrival form.
pub struct Root1 {
    pub category: String,
    pub dumped: u64,
    pub current_gid: RawValue,
    pub expunged: bool,
    pub filecount: RawValue,
    pub filesize: u64,
    pub first_gid: RawValue,
    pub gid: u64,
    pub parent_gid: RawValue,
    pub posted: RawValue,
    pub rating: RawValue,
    pub tags: Vec<String>,
    pub thumb: String,
    pub title: String,
    pub title_jpn: Option<String>,
    pub token: String,
    pub torrentcount: RawValue,
    pub torrents: Vec<Torrents1>,
    pub uploader: String,
}

} // verus!
