use vstd::prelude::*;
use vstd::string::*;

use crate::candidates::{lower_of, lowercase};
use crate::strings::{chars_of, string_of};

verus! {

/// A value of the configuration file, in the shapes the settings read:
/// a string, an integer, an array, or anything else (a decimal, a table, ...).
pub enum ConfigItem {
    Str(String),
    Integer(i64),
    Array(Vec<ConfigItem>),
    Other,
}

/// Why a configuration value was refused: it had the wrong type, or a value
/// outside the allowed ones. Each lists what would have been accepted.
#[derive(Debug)]
pub enum ConfigValueError {
    InvalidType { possible_types: Vec<&'static str> },
    InvalidValue { possible: Vec<&'static str> },
}

/// The parts joined by commas.
pub open spec fn join_commas(parts: Seq<Seq<char>>) -> Seq<char>
    decreases parts.len(),
{
    if parts.len() == 0 {
        Seq::empty()
    } else if parts.len() == 1 {
        parts[0]
    } else {
        join_commas(parts.drop_last()).push(',') + parts.last()
    }
}

/// The position of the last comma of `s`, if any.
pub open spec fn last_comma(s: Seq<char>) -> Option<int>
    decreases s.len(),
{
    if s.len() == 0 {
        None
    } else if s.last() == ',' {
        Some(s.len() - 1)
    } else {
        last_comma(s.drop_last())
    }
}

/// The parts joined by commas, with the last comma replaced by " or ".
pub open spec fn joined_possible(parts: Seq<Seq<char>>) -> Seq<char> {
    let s = join_commas(parts);
    match last_comma(s) {
        Some(pos) => s.take(pos) + seq![' ', 'o', 'r', ' '] + s.skip(pos + 1),
        None => s,
    }
}

pub open spec fn str_views(parts: Seq<&'static str>) -> Seq<Seq<char>> {
    parts.map_values(|p: &'static str| p@)
}

proof fn lemma_last_comma(s: Seq<char>)
    ensures
        last_comma(s) matches Some(p) ==> 0 <= p < s.len() && s[p] == ',' && forall|j: int|
            p < j < s.len() ==> s[j] != ',',
        last_comma(s) is None ==> forall|j: int| 0 <= j < s.len() ==> s[j] != ',',
    decreases s.len(),
{
    if s.len() > 0 {
        let init = s.drop_last();
        lemma_last_comma(init);
        assert forall|j: int| 0 <= j < init.len() implies #[trigger] s[j] == init[j] by {}
        if s.last() != ',' {
            if last_comma(s) is None {
                assert forall|j: int| 0 <= j < s.len() implies s[j] != ',' by {
                    if j < init.len() {
                        assert(s[j] == init[j]);
                    }
                }
            } else {
                let p = last_comma(s)->0;
                assert forall|j: int| p < j < s.len() implies s[j] != ',' by {
                    if j < init.len() {
                        assert(s[j] == init[j]);
                    }
                }
            }
        }
    }
}

/// Lists the accepted alternatives for a message: "a,b or c".
pub fn join_possible(possible: &[&'static str]) -> (r: String)
    ensures
        r@ == joined_possible(str_views(possible@)),
{
    let ghost parts = str_views(possible@);
    let mut joined = String::new();
    let mut i: usize = 0;
    while i < possible.len()
        invariant
            i <= possible@.len(),
            parts == str_views(possible@),
            joined@ == join_commas(parts.take(i as int)),
        decreases possible@.len() - i,
    {
        assert(parts.take(i + 1).drop_last() == parts.take(i as int));
        assert(parts.take(i + 1).last() == possible@[i as int]@);
        if i > 0 {
            joined.append(",");
            proof {
                reveal_strlit(",");
            }
        } else {
            assert(parts.take(1) == seq![parts[0]]);
        }
        joined.append(possible[i]);
        i = i + 1;
    }
    assert(parts.take(i as int) == parts);
    let chars = chars_of(joined.as_str());
    let mut pos: usize = chars.len();
    let mut found = false;
    proof {
        lemma_last_comma(chars@);
    }
    while pos > 0 && !found
        invariant
            pos <= chars@.len(),
            found ==> pos < chars@.len() && chars@[pos as int] == ',',
            forall|j: int| pos < j < chars@.len() ==> chars@[j] != ',',
            !found ==> forall|j: int| pos <= j < chars@.len() ==> chars@[j] != ',',
        decreases pos + if found { 0int } else { 1int },
    {
        pos = pos - 1;
        if chars[pos] == ',' {
            found = true;
        }
    }
    if found {
        assert(last_comma(chars@) == Some(pos as int)) by {
            lemma_last_comma(chars@);
        }
        let mut out: Vec<char> = Vec::new();
        let mut k: usize = 0;
        while k < pos
            invariant
                k <= pos < chars@.len(),
                out@ == chars@.take(k as int),
            decreases pos - k,
        {
            out.push(chars[k]);
            assert(chars@.take(k + 1) == chars@.take(k as int).push(chars@[k as int]));
            k = k + 1;
        }
        out.push(' ');
        out.push('o');
        out.push('r');
        out.push(' ');
        let ghost head = out@;
        k = pos + 1;
        while k < chars.len()
            invariant
                pos < k <= chars@.len(),
                out@ == head + chars@.subrange(pos + 1, k as int),
            decreases chars@.len() - k,
        {
            out.push(chars[k]);
            assert(chars@.subrange(pos + 1, k + 1) == chars@.subrange(pos + 1, k as int).push(
                chars@[k as int],
            ));
            k = k + 1;
        }
        assert(out@ == chars@.take(pos as int) + seq![' ', 'o', 'r', ' '] + chars@.skip(pos + 1));
        string_of(out.as_slice())
    } else {
        assert(last_comma(chars@) is None) by {
            lemma_last_comma(chars@);
            if last_comma(chars@) is Some {
                let p = last_comma(chars@)->0;
                assert(chars@[p] == ',');
            }
        }
        joined
    }
}

impl ConfigValueError {
    /// The message for this error.
    pub fn message(&self) -> (r: String)
        ensures
            r@ == match self {
                ConfigValueError::InvalidType { possible_types } => "Expected any of this types "@
                    + joined_possible(str_views(possible_types@)),
                ConfigValueError::InvalidValue { possible } => "Value should be "@ + joined_possible(
                    str_views(possible@),
                ),
            },
    {
        match self {
            ConfigValueError::InvalidType { possible_types } => {
                let mut s = String::new();
                s.append("Expected any of this types ");
                s.append(join_possible(possible_types.as_slice()).as_str());
                s
            },
            ConfigValueError::InvalidValue { possible } => {
                let mut s = String::new();
                s.append("Value should be ");
                s.append(join_possible(possible.as_slice()).as_str());
                s
            },
        }
    }
}

/// Which edge of the screen the launcher bar sits at.
#[derive(Clone, Copy, Debug, PartialEq, Eq, Structural)]
pub enum WindowPosition {
    Top,
    Bottom,
}

/// A color as its red, green and blue components.
#[derive(Clone, Copy, Debug, PartialEq, Eq, Structural)]
pub struct ConfigColor {
    pub r: u8,
    pub g: u8,
    pub b: u8,
}

/// A string setting.
#[derive(Clone, Debug)]
pub struct ConfigString(pub String);

/// The low eight bits of `i`.
pub open spec fn low_byte(i: i64) -> u8 {
    (i & 0xFF) as u8
}

fn low_byte_exec(i: i64) -> (r: u8)
    ensures
        r == low_byte(i),
{
    let v = i & 0xFF;
    assert(0 <= v < 256) by (bit_vector)
        requires
            v == i & 0xFF,
    ;
    v as u8
}

impl WindowPosition {
    /// Reads an already lowercased name: "top" or "bottom".
    pub fn from_folded(lowered: &str) -> (r: Result<Self, ConfigValueError>)
        ensures
            if lowered@ == "top"@ {
                r == Ok::<Self, ConfigValueError>(WindowPosition::Top)
            } else if lowered@ == "bottom"@ {
                r == Ok::<Self, ConfigValueError>(WindowPosition::Bottom)
            } else {
                r matches Err(ConfigValueError::InvalidValue { possible }) && possible@ == seq![
                    "top",
                    "bottom",
                ]
            },
    {
        let lowered = lowered.to_owned();
        if lowered == "top".to_owned() {
            Ok(WindowPosition::Top)
        } else if lowered == "bottom".to_owned() {
            Ok(WindowPosition::Bottom)
        } else {
            Err(ConfigValueError::InvalidValue { possible: vec!["top", "bottom"] })
        }
    }

    /// Reads "top" or "bottom", in any case.
    pub fn from_item(value: ConfigItem) -> (r: Result<Self, ConfigValueError>)
        ensures
            match value {
                ConfigItem::Str(s) => if lower_of(s@) == "top"@ {
                    r == Ok::<Self, ConfigValueError>(WindowPosition::Top)
                } else if lower_of(s@) == "bottom"@ {
                    r == Ok::<Self, ConfigValueError>(WindowPosition::Bottom)
                } else {
                    r matches Err(ConfigValueError::InvalidValue { possible }) && possible@ == seq![
                        "top",
                        "bottom",
                    ]
                },
                _ => r matches Err(ConfigValueError::InvalidType { possible_types })
                    && possible_types@ == seq!["String"],
            },
    {
        match value {
            ConfigItem::Str(s) => {
                let lowered = lowercase(s.as_str());
                WindowPosition::from_folded(lowered.as_str())
            },
            _ => Err(ConfigValueError::InvalidType { possible_types: vec!["String"] }),
        }
    }
}

impl ConfigColor {
    pub fn new(r: u8, g: u8, b: u8) -> (c: Self)
        ensures
            c.r == r && c.g == g && c.b == b,
    {
        ConfigColor { r, g, b }
    }

    /// Reads a color from an integer `0xRRGGBB` (its low 24 bits) or from an
    /// array of three integers (each taken modulo 256).
    pub fn from_item(value: ConfigItem) -> (r: Result<Self, ConfigValueError>)
        ensures
            match value {
                ConfigItem::Integer(i) => r == Ok::<Self, ConfigValueError>(
                    ConfigColor { r: low_byte(i >> 16), g: low_byte(i >> 8), b: low_byte(i) },
                ),
                ConfigItem::Array(a) => if a@.len() == 3 && (a@[0] is Integer) && (a@[1] is Integer)
                    && (a@[2] is Integer) {
                    r == Ok::<Self, ConfigValueError>(
                        ConfigColor {
                            r: low_byte(a@[0]->Integer_0),
                            g: low_byte(a@[1]->Integer_0),
                            b: low_byte(a@[2]->Integer_0),
                        },
                    )
                } else {
                    r matches Err(ConfigValueError::InvalidValue { possible }) && possible@ == seq![
                        "[integer, integer, integer]",
                    ]
                },
                _ => r matches Err(ConfigValueError::InvalidType { possible_types })
                    && possible_types@ == seq!["Vec<u8>", "u32"],
            },
    {
        match value {
            ConfigItem::Integer(i) => Ok(
                ConfigColor { r: low_byte_exec(i >> 16), g: low_byte_exec(i >> 8), b: low_byte_exec(i) },
            ),
            ConfigItem::Array(a) => {
                if a.len() != 3 {
                    return Err(
                        ConfigValueError::InvalidValue { possible: vec!["[integer, integer, integer]"] },
                    );
                }
                let r = match &a[0] {
                    ConfigItem::Integer(i) => low_byte_exec(*i),
                    _ => {
                        return Err(
                            ConfigValueError::InvalidValue {
                                possible: vec!["[integer, integer, integer]"],
                            },
                        );
                    },
                };
                let g = match &a[1] {
                    ConfigItem::Integer(i) => low_byte_exec(*i),
                    _ => {
                        return Err(
                            ConfigValueError::InvalidValue {
                                possible: vec!["[integer, integer, integer]"],
                            },
                        );
                    },
                };
                let b = match &a[2] {
                    ConfigItem::Integer(i) => low_byte_exec(*i),
                    _ => {
                        return Err(
                            ConfigValueError::InvalidValue {
                                possible: vec!["[integer, integer, integer]"],
                            },
                        );
                    },
                };
                Ok(ConfigColor { r, g, b })
            },
            _ => Err(ConfigValueError::InvalidType { possible_types: vec!["Vec<u8>", "u32"] }),
        }
    }
}

impl ConfigString {
    /// Reads a string.
    pub fn from_item(value: ConfigItem) -> (r: Result<Self, ConfigValueError>)
        ensures
            match value {
                ConfigItem::Str(s) => r matches Ok(c) && c.0@ == s@,
                _ => r matches Err(ConfigValueError::InvalidType { possible_types })
                    && possible_types@ == seq!["String"],
            },
    {
        match value {
            ConfigItem::Str(s) => Ok(ConfigString(s)),
            _ => Err(ConfigValueError::InvalidType { possible_types: vec!["String"] }),
        }
    }

    pub fn as_str(&self) -> (r: &str)
        ensures
            r@ == self.0@,
    {
        self.0.as_str()
    }
}

} // verus!
