use crate::geometry::Rect;
use vstd::prelude::*;

verus! {

// The evaluation manifest is a CSV file with the header
// `file,split,present,x,y,width,height`; each further line names an image,
// its split, whether the bobber is present, and the confirmed rectangle.
// Quoted fields and commas inside fields are not supported.

/// Why a decimal field is not an `i32`; the same kinds, in the same order of
/// precedence, as the standard library's integer parser reports.
#[derive(Clone, Copy, PartialEq, Eq, Structural, Debug)]
pub enum NumberError {
    Empty,
    InvalidDigit,
    TooLarge,
    TooSmall,
}

/// Why a manifest line was rejected.
#[derive(Clone, Copy, PartialEq, Eq, Structural, Debug)]
pub enum ManifestError {
    /// The line does not have exactly seven comma separated fields.
    WrongColumnCount,
    /// Field `field` (counted from 0) is not a decimal `i32`.
    BadNumber { field: usize, kind: NumberError },
}

/// One manifest line: image file, split name, presence flag (the field as
/// written) and the confirmed rectangle.
#[derive(PartialEq, Eq, Debug)]
pub struct ManifestRow {
    pub file: Vec<u8>,
    pub split: Vec<u8>,
    pub present: Vec<u8>,
    pub target: Rect,
}

pub open spec fn is_digit(b: u8) -> bool {
    48 <= b <= 57
}

pub open spec fn comma() -> u8 {
    44
}

/// The fields of `s` after `current`, split at every comma, as
/// `str::split(',')` yields them: `n` commas give `n + 1` fields.
pub open spec fn split_from(s: Seq<u8>, current: Seq<u8>) -> Seq<Seq<u8>>
    decreases s.len(),
{
    if s.len() == 0 {
        seq![current]
    } else if s[0] == comma() {
        seq![current] + split_from(s.drop_first(), Seq::empty())
    } else {
        split_from(s.drop_first(), current.push(s[0]))
    }
}

pub open spec fn split_fields(s: Seq<u8>) -> Seq<Seq<u8>> {
    split_from(s, Seq::empty())
}

/// Reads the digits of `body` from position `i` on, with `acc` the magnitude
/// read so far; a digit that pushes the magnitude past the range of `i32`
/// stops the scan, unless a non-digit comes first.
pub open spec fn scan_digits(body: Seq<u8>, i: int, acc: int, negative: bool) -> Result<int, NumberError>
    decreases body.len() - i,
{
    if i >= body.len() || i < 0 {
        Ok(if negative { -acc } else { acc })
    } else if !is_digit(body[i]) {
        Err(NumberError::InvalidDigit)
    } else {
        let next = acc * 10 + (body[i] - 48);
        if !negative && next > i32::MAX {
            Err(NumberError::TooLarge)
        } else if negative && next > 0x8000_0000 {
            Err(NumberError::TooSmall)
        } else {
            scan_digits(body, i + 1, next, negative)
        }
    }
}

/// A decimal `i32`: an optional sign followed by one or more digits.
pub open spec fn parse_i32_spec(s: Seq<u8>) -> Result<int, NumberError> {
    if s.len() == 0 {
        Err(NumberError::Empty)
    } else if s.len() == 1 && (s[0] == 43 || s[0] == 45) {
        Err(NumberError::InvalidDigit)
    } else if s[0] == 45 {
        scan_digits(s.drop_first(), 0, 0, true)
    } else if s[0] == 43 {
        scan_digits(s.drop_first(), 0, 0, false)
    } else {
        scan_digits(s, 0, 0, false)
    }
}

/// Parses a decimal `i32` the way `str::parse::<i32>` does.
pub fn parse_i32(s: &[u8]) -> (r: Result<i32, NumberError>)
    ensures
        match parse_i32_spec(s@) {
            Ok(v) => r == Ok::<i32, NumberError>(v as i32) && i32::MIN <= v <= i32::MAX,
            Err(e) => r == Err::<i32, NumberError>(e),
        },
{
    if s.len() == 0 {
        return Err(NumberError::Empty);
    }
    if s.len() == 1 && (s[0] == 43 || s[0] == 45) {
        return Err(NumberError::InvalidDigit);
    }
    let negative = s[0] == 45;
    let start: usize = if s[0] == 45 || s[0] == 43 { 1 } else { 0 };
    let ghost body = s@.subrange(start as int, s@.len() as int);
    proof {
        if s[0] == 45 || s[0] == 43 {
            assert(body =~= s@.drop_first());
        } else {
            assert(body =~= s@);
        }
        assert(parse_i32_spec(s@) == scan_digits(body, 0, 0, negative));
    }
    let mut acc: i64 = 0;
    let mut i: usize = start;
    while i < s.len()
        invariant
            start <= i <= s.len(),
            body == s@.subrange(start as int, s@.len() as int),
            0 <= acc <= 0x8000_0000,
            !negative ==> acc <= i32::MAX,
            scan_digits(body, (i - start) as int, acc as int, negative) == scan_digits(body, 0, 0, negative),
            parse_i32_spec(s@) == scan_digits(body, 0, 0, negative),
            negative == (s@[0] == 45),
        decreases s.len() - i,
    {
        let c = s[i];
        assert(body.len() == s.len() - start);
        assert(body[(i - start) as int] == c);
        if !(48 <= c && c <= 57) {
            return Err(NumberError::InvalidDigit);
        }
        let next: i64 = acc * 10 + (c - 48) as i64;
        if !negative && next > 0x7FFF_FFFF {
            return Err(NumberError::TooLarge);
        }
        if negative && next > 0x8000_0000 {
            return Err(NumberError::TooSmall);
        }
        acc = next;
        i = i + 1;
    }
    if negative {
        Ok((-acc) as i32)
    } else {
        Ok(acc as i32)
    }
}

pub open spec fn field_views(fields: Seq<Vec<u8>>) -> Seq<Seq<u8>> {
    fields.map_values(|f: Vec<u8>| f@)
}

/// Splits a line at every comma, keeping empty fields, as `str::split(',')` does.
pub fn split_commas(line: &[u8]) -> (fields: Vec<Vec<u8>>)
    ensures
        field_views(fields@) == split_fields(line@),
{
    let mut fields: Vec<Vec<u8>> = Vec::new();
    let mut current: Vec<u8> = Vec::new();
    let mut i: usize = 0;
    proof {
        assert(line@.subrange(0, line@.len() as int) =~= line@);
        assert(field_views(fields@) =~= Seq::<Seq<u8>>::empty());
        assert(current@ =~= Seq::<u8>::empty());
        assert(split_fields(line@) =~= field_views(fields@) + split_from(line@.subrange(0, line@.len() as int), current@));
    }
    while i < line.len()
        invariant
            i <= line.len(),
            split_fields(line@) == field_views(fields@) + split_from(line@.subrange(i as int, line@.len() as int), current@),
        decreases line.len() - i,
    {
        let ghost rest = line@.subrange(i as int, line@.len() as int);
        let ghost old_fields = fields@;
        let ghost old_current = current@;
        assert(rest[0] == line@[i as int]);
        assert(rest.drop_first() =~= line@.subrange(i + 1, line@.len() as int));
        if line[i] == 44 {
            let done = current;
            fields.push(done);
            current = Vec::new();
            proof {
                assert(field_views(fields@) =~= field_views(old_fields).push(old_current));
                assert(current@ =~= Seq::<u8>::empty());
                assert(field_views(old_fields) + split_from(rest, old_current) =~= field_views(fields@)
                    + split_from(rest.drop_first(), current@));
            }
        } else {
            current.push(line[i]);
        }
        i = i + 1;
    }
    let ghost old_fields = fields@;
    let ghost last = current@;
    fields.push(current);
    proof {
        assert(line@.subrange(i as int, line@.len() as int) =~= Seq::<u8>::empty());
        assert(field_views(fields@) =~= field_views(old_fields).push(last));
        assert(field_views(fields@) =~= field_views(old_fields) + seq![last]);
    }
    fields
}

/// What a manifest line holds: file, split, presence flag and rectangle, or
/// the first problem found, checking the column count and then the numbers
/// from left to right.
pub open spec fn manifest_line_spec(line: Seq<u8>) -> Result<(Seq<u8>, Seq<u8>, Seq<u8>, Rect), ManifestError> {
    let f = split_fields(line);
    if f.len() != 7 {
        Err(ManifestError::WrongColumnCount)
    } else {
        match (parse_i32_spec(f[3]), parse_i32_spec(f[4]), parse_i32_spec(f[5]), parse_i32_spec(f[6])) {
            (Err(e), _, _, _) => Err(ManifestError::BadNumber { field: 3, kind: e }),
            (Ok(_), Err(e), _, _) => Err(ManifestError::BadNumber { field: 4, kind: e }),
            (Ok(_), Ok(_), Err(e), _) => Err(ManifestError::BadNumber { field: 5, kind: e }),
            (Ok(_), Ok(_), Ok(_), Err(e)) => Err(ManifestError::BadNumber { field: 6, kind: e }),
            (Ok(x), Ok(y), Ok(w), Ok(h)) => Ok(
                (f[0], f[1], f[2], Rect { x: x as i32, y: y as i32, width: w as i32, height: h as i32 }),
            ),
        }
    }
}

/// Reads one manifest line (without its line ending).
pub fn parse_manifest_line(line: &[u8]) -> (r: Result<ManifestRow, ManifestError>)
    ensures
        match manifest_line_spec(line@) {
            Ok((file, split, present, target)) => r matches Ok(row) && row.file@ == file && row.split@ == split
                && row.present@ == present && row.target == target,
            Err(e) => r == Err::<ManifestRow, ManifestError>(e),
        },
{
    let mut fields = split_commas(line);
    let ghost f = split_fields(line@);
    if fields.len() != 7 {
        proof {
            assert(field_views(fields@).len() == fields@.len());
        }
        return Err(ManifestError::WrongColumnCount);
    }
    proof {
        assert(field_views(fields@).len() == fields@.len());
        assert forall|k: int| 0 <= k < 7 implies #[trigger] fields@[k]@ == f[k] by {
            assert(field_views(fields@)[k] == fields@[k]@);
        }
    }
    let x = match parse_i32(fields[3].as_slice()) {
        Ok(v) => v,
        Err(e) => {
            return Err(ManifestError::BadNumber { field: 3, kind: e });
        },
    };
    let y = match parse_i32(fields[4].as_slice()) {
        Ok(v) => v,
        Err(e) => {
            return Err(ManifestError::BadNumber { field: 4, kind: e });
        },
    };
    let width = match parse_i32(fields[5].as_slice()) {
        Ok(v) => v,
        Err(e) => {
            return Err(ManifestError::BadNumber { field: 5, kind: e });
        },
    };
    let height = match parse_i32(fields[6].as_slice()) {
        Ok(v) => v,
        Err(e) => {
            return Err(ManifestError::BadNumber { field: 6, kind: e });
        },
    };
    let file = fields.remove(0);
    let split = fields.remove(0);
    let present = fields.remove(0);
    Ok(ManifestRow { file, split, present, target: Rect::new(x, y, width, height) })
}

} // verus!
