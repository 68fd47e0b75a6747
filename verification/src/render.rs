//! The texts that are shown for a package. Colours and the terminal are
//! the caller's business.

use crate::record::PackageRecord;
use vstd::prelude::*;
use vstd::utf8::{
    decode_utf8, encode_utf8, encode_utf8_decode_utf8, encode_utf8_valid_utf8, is_char_boundary,
};

verus! {

/// The number of bytes of a description, in UTF-8, that a search result
/// shows at most.
pub const EXCERPT_LENGTH: usize = 120;

/// The width to which the label of a field is filled up.
pub const LABEL_WIDTH: usize = 15;

/// The character for a digit.
pub open spec fn digit(value: nat) -> char {
    seq!['0', '1', '2', '3', '4', '5', '6', '7', '8', '9'][value as int]
}

/// The digits of a number without leading zero; none for zero.
pub open spec fn digits_text(value: nat) -> Seq<char>
    decreases value,
{
    if value == 0 {
        Seq::empty()
    } else {
        digits_text(value / 10).push(digit(value % 10))
    }
}

/// A number in decimal notation.
pub open spec fn decimal_text(value: nat) -> Seq<char> {
    if value == 0 {
        seq!['0']
    } else {
        digits_text(value)
    }
}

/// The place at which a text, given by its bytes in UTF-8, is cut so that
/// at most `limit` bytes are left: its end where it is no longer than that,
/// else `limit` where a character begins there, else the nearest place
/// before it where one does.
pub open spec fn cut_point(bytes: Seq<u8>, limit: int) -> int
    decreases limit,
{
    if bytes.len() <= limit {
        bytes.len() as int
    } else if limit <= 0 {
        0
    } else if is_char_boundary(bytes, limit) {
        limit
    } else {
        cut_point(bytes, limit - 1)
    }
}

/// The beginning of a text that takes at most `limit` bytes in UTF-8: the
/// text is cut at [`cut_point`], never inside a character.
pub open spec fn excerpt_text(text: Seq<char>, limit: nat) -> Seq<char> {
    let bytes = encode_utf8(text);
    decode_utf8(bytes.subrange(0, cut_point(bytes, limit as int)))
}

/// As many spaces as asked for.
pub open spec fn spaces(count: nat) -> Seq<char> {
    Seq::new(count, |i: int| ' ')
}

/// A label filled up with spaces to `width` characters; a longer label is
/// left as it is.
pub open spec fn label_text(label: Seq<char>, width: nat) -> Seq<char> {
    if label.len() >= width {
        label
    } else {
        label + spaces((width - label.len()) as nat)
    }
}

/// The second line of a search result: the beginning of the description,
/// indented and followed by an ellipsis.
pub open spec fn description_line_text(description: Seq<char>) -> Seq<char> {
    "    "@ + excerpt_text(description, EXCERPT_LENGTH as nat) + "..."@
}

/// The fields that are shown of a package, each with its label.
pub open spec fn info_field_texts(package: PackageRecord) -> Seq<(Seq<char>, Seq<char>)> {
    seq![
        ("Name"@, package.name@),
        ("Version"@, package.version@),
        ("Description"@, package.description@),
        ("URL"@, package.url@),
        ("Votes"@, decimal_text(package.num_votes as nat)),
    ]
}

/// A list of fields as pairs of texts.
pub open spec fn field_pairs(fields: Seq<(String, String)>) -> Seq<(Seq<char>, Seq<char>)> {
    Seq::new(fields.len(), |i: int| (fields[i].0@, fields[i].1@))
}

/// The text of one digit.
fn digit_text(value: u8) -> (text: &'static str)
    requires
        value < 10,
    ensures
        text@ == seq![digit(value as nat)],
{
    proof {
        reveal_strlit("0");
        reveal_strlit("1");
        reveal_strlit("2");
        reveal_strlit("3");
        reveal_strlit("4");
        reveal_strlit("5");
        reveal_strlit("6");
        reveal_strlit("7");
        reveal_strlit("8");
        reveal_strlit("9");
    }
    let text = match value {
        0 => "0",
        1 => "1",
        2 => "2",
        3 => "3",
        4 => "4",
        5 => "5",
        6 => "6",
        7 => "7",
        8 => "8",
        _ => "9",
    };
    assert(text@ =~= seq![digit(value as nat)]);
    text
}

/// The digits of `low` in the order of writing: they are kept lowest
/// first.
pub open spec fn written(low: Seq<u8>) -> Seq<char>
    decreases low.len(),
{
    if low.len() == 0 {
        Seq::empty()
    } else {
        seq![digit(low.last() as nat)] + written(low.drop_last())
    }
}

/// Writes a number in decimal notation.
pub fn decimal(value: u32) -> (text: String)
    ensures
        text@ == decimal_text(value as nat),
{
    if value == 0 {
        proof {
            reveal_strlit("0");
            assert("0"@ =~= seq!['0']);
        }
        return String::from_str("0");
    }
    let mut low: Vec<u8> = Vec::new();
    let mut rest: u32 = value;
    proof {
        assert(digits_text(rest as nat) + written(low@) =~= digits_text(value as nat));
    }
    while rest > 0
        invariant
            digits_text(rest as nat) + written(low@) == digits_text(value as nat),
            forall|k: int| 0 <= k < low@.len() ==> #[trigger] low@[k] < 10,
        decreases rest,
    {
        let last: u8 = (rest % 10) as u8;
        let ghost before = low@;
        low.push(last);
        proof {
            assert(low@.drop_last() =~= before);
            assert(written(low@) == seq![digit(last as nat)] + written(before));
            assert(digits_text(rest as nat) == digits_text((rest / 10) as nat).push(
                digit(last as nat),
            ));
            assert(digits_text((rest / 10) as nat) + written(low@) =~= digits_text(rest as nat)
                + written(before));
        }
        rest = rest / 10;
    }
    let mut text = String::new();
    let mut i: usize = low.len();
    proof {
        assert(low@.take(i as int) =~= low@);
        assert(digits_text(0) + written(low@) =~= written(low@));
    }
    while i > 0
        invariant
            i <= low.len(),
            forall|k: int| 0 <= k < low@.len() ==> #[trigger] low@[k] < 10,
            text@ + written(low@.take(i as int)) == written(low@),
        decreases i,
    {
        i -= 1;
        proof {
            let upto = low@.take(i + 1);
            assert(upto.drop_last() =~= low@.take(i as int));
            assert(upto.last() == low@[i as int]);
            assert((text@ + seq![digit(low@[i as int] as nat)]) + written(low@.take(i as int))
                =~= text@ + written(upto));
        }
        text.append(digit_text(low[i]));
    }
    proof {
        assert(low@.take(0) =~= Seq::<u8>::empty());
        assert(text@ + written(low@.take(0)) =~= text@);
    }
    text
}

/// The beginning of a text that takes at most `limit` bytes in UTF-8: the
/// whole text where it is no longer than that, else the text up to byte
/// `limit`, or up to the nearest place before it at which a character
/// begins.
pub fn excerpt(text: &str, limit: usize) -> (cut: String)
    ensures
        cut@ == excerpt_text(text@, limit as nat),
{
    let ghost bytes = encode_utf8(text@);
    proof {
        encode_utf8_valid_utf8(text@);
        encode_utf8_decode_utf8(text@);
    }
    if text.as_bytes().len() <= limit {
        proof {
            assert(bytes.subrange(0, bytes.len() as int) =~= bytes);
        }
        return String::from_str(text);
    }
    let mut at: usize = limit;
    while at > 0 && !text.is_char_boundary(at)
        invariant
            at <= limit,
            limit < bytes.len(),
            bytes == encode_utf8(text@),
            cut_point(bytes, limit as int) == cut_point(bytes, at as int),
        decreases at,
    {
        at -= 1;
    }
    let (head, _) = text.split_at(at);
    proof {
        encode_utf8_decode_utf8(head@);
        assert(cut_point(bytes, at as int) == at);
        assert(encode_utf8(head@) == bytes.subrange(0, at as int));
    }
    String::from_str(head)
}

/// A label filled up with spaces to `width` characters.
pub fn label(name: &str, width: usize) -> (cell: String)
    ensures
        cell@ == label_text(name@, width as nat),
{
    let mut cell = String::from_str(name);
    let length = name.unicode_len();
    if length >= width {
        return cell;
    }
    let mut i: usize = 0;
    proof {
        reveal_strlit(" ");
        assert(name@ + spaces(0) =~= name@);
    }
    while i < width - length
        invariant
            length < width,
            i <= width - length,
            " "@ == seq![' '],
            cell@ == name@ + spaces(i as nat),
        decreases width - length - i,
    {
        cell.append(" ");
        assert(cell@ =~= name@ + spaces((i + 1) as nat));
        i += 1;
    }
    cell
}

/// The second line of a search result.
pub fn description_line(package: &PackageRecord) -> (line: String)
    ensures
        line@ == description_line_text(package.description@),
{
    let mut line = String::from_str("    ");
    let cut = excerpt(package.description.as_str(), EXCERPT_LENGTH);
    line.append(cut.as_str());
    line.append("...");
    line
}

/// The fields that are shown of a package: name, version, description,
/// home page and vote count, each with its label.
pub fn info_fields(package: &PackageRecord) -> (fields: Vec<(String, String)>)
    ensures
        field_pairs(fields@) == info_field_texts(*package),
{
    let mut fields: Vec<(String, String)> = Vec::new();
    fields.push((String::from_str("Name"), package.name.clone()));
    fields.push((String::from_str("Version"), package.version.clone()));
    fields.push((String::from_str("Description"), package.description.clone()));
    fields.push((String::from_str("URL"), package.url.clone()));
    fields.push((String::from_str("Votes"), decimal(package.num_votes)));
    assert(field_pairs(fields@) =~= info_field_texts(*package));
    fields
}

} // verus!
