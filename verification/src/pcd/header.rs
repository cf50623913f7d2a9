//! The header of a point-cloud file: `KEY value ...` lines, the last of which
//! is the `DATA` line.

use crate::error::CloudError;
use crate::pcd::text::{
    bytes_equal, find_byte, index_of, lemma_index_of, parse_decimal, parse_usize, split,
    split_tokens, tokens_view, NEWLINE, SPACE,
};
use vstd::prelude::*;

verus! {

/// `VERSION`
pub const KEY_VERSION: [u8; 7] = [86, 69, 82, 83, 73, 79, 78];

/// `FIELDS`
pub const KEY_FIELDS: [u8; 6] = [70, 73, 69, 76, 68, 83];

/// `SIZE`
pub const KEY_SIZE: [u8; 4] = [83, 73, 90, 69];

/// `TYPE`
pub const KEY_TYPE: [u8; 4] = [84, 89, 80, 69];

/// `COUNT`
pub const KEY_COUNT: [u8; 5] = [67, 79, 85, 78, 84];

/// `WIDTH`
pub const KEY_WIDTH: [u8; 5] = [87, 73, 68, 84, 72];

/// `HEIGHT`
pub const KEY_HEIGHT: [u8; 6] = [72, 69, 73, 71, 72, 84];

/// `DATA`
pub const KEY_DATA: [u8; 4] = [68, 65, 84, 65];

/// `ascii`
pub const MODE_ASCII: [u8; 5] = [97, 115, 99, 105, 105];

/// `binary`
pub const MODE_BINARY: [u8; 6] = [98, 105, 110, 97, 114, 121];

/// `binary_compressed`
pub const MODE_BINARY_COMPRESSED: [u8; 17] = [
    98,
    105,
    110,
    97,
    114,
    121,
    95,
    99,
    111,
    109,
    112,
    114,
    101,
    115,
    115,
    101,
    100,
];

/// `F`, the type of a floating-point column.
pub const TYPE_FLOAT: [u8; 1] = [70];

/// How the body of a file is laid out.
#[derive(Clone, Copy, Debug, PartialEq, Eq, Structural)]
pub enum DataMode {
    /// One text row per point.
    Ascii,
    /// Fixed-size records, one after the other.
    Binary,
    /// An LZF block that holds the columns one after the other.
    BinaryCompressed,
}

/// What the header lines of a file say.
#[derive(Debug)]
pub struct PcdHeader {
    pub version: Vec<u8>,
    /// The name of each column.
    pub fields: Vec<Vec<u8>>,
    /// The bytes of one value of each column.
    pub size: Vec<usize>,
    /// The storage class of each column; `F` marks floating point.
    pub field_type: Vec<Vec<u8>>,
    /// The number of values of each column in one record.
    pub count: Vec<usize>,
    pub width: usize,
    pub height: usize,
    /// The body's mode, as written on the `DATA` line.
    pub data: Vec<u8>,
}

/// The mathematical content of a header.
pub struct HeaderModel {
    pub version: Seq<u8>,
    pub fields: Seq<Seq<u8>>,
    pub size: Seq<usize>,
    pub field_type: Seq<Seq<u8>>,
    pub count: Seq<usize>,
    pub width: usize,
    pub height: usize,
    pub data: Seq<u8>,
}

impl View for PcdHeader {
    type V = HeaderModel;

    open spec fn view(&self) -> HeaderModel {
        HeaderModel {
            version: self.version@,
            fields: tokens_view(self.fields@),
            size: self.size@,
            field_type: tokens_view(self.field_type@),
            count: self.count@,
            width: self.width,
            height: self.height,
            data: self.data@,
        }
    }
}

/// The header before any line is read: nothing declared, no points.
pub open spec fn empty_header() -> HeaderModel {
    HeaderModel {
        version: Seq::empty(),
        fields: Seq::empty(),
        size: Seq::empty(),
        field_type: Seq::empty(),
        count: Seq::empty(),
        width: 0,
        height: 0,
        data: Seq::empty(),
    }
}

/// The mode that a `DATA` token names, if it names one.
pub open spec fn mode_of(data: Seq<u8>) -> Option<DataMode> {
    if data == MODE_ASCII@ {
        Some(DataMode::Ascii)
    } else if data == MODE_BINARY@ {
        Some(DataMode::Binary)
    } else if data == MODE_BINARY_COMPRESSED@ {
        Some(DataMode::BinaryCompressed)
    } else {
        None
    }
}

/// Whether every token is an unsigned decimal number.
pub open spec fn all_numbers(tokens: Seq<Seq<u8>>) -> bool {
    forall|i: int| 0 <= i < tokens.len() ==> (#[trigger] parse_decimal(tokens[i])) is Some
}

/// The numbers that the tokens spell.
pub open spec fn numbers(tokens: Seq<Seq<u8>>) -> Seq<usize> {
    tokens.map_values(|t: Seq<u8>| parse_decimal(t).unwrap() as usize)
}

/// The header after one more line, given the line's tokens; `None` where the
/// line is malformed. A line that starts with a key names its values after it:
/// `VERSION`, `WIDTH`, `HEIGHT` and `DATA` need one, `SIZE` and `COUNT` take
/// numbers only. A line that starts with anything else changes nothing.
pub open spec fn apply_line(h: HeaderModel, tokens: Seq<Seq<u8>>) -> Option<HeaderModel> {
    let key = tokens[0];
    let args = tokens.skip(1);
    if key == KEY_VERSION@ {
        if args.len() >= 1 {
            Some(HeaderModel { version: args[0], ..h })
        } else {
            None
        }
    } else if key == KEY_FIELDS@ {
        Some(HeaderModel { fields: args, ..h })
    } else if key == KEY_SIZE@ {
        if all_numbers(args) {
            Some(HeaderModel { size: numbers(args), ..h })
        } else {
            None
        }
    } else if key == KEY_TYPE@ {
        Some(HeaderModel { field_type: args, ..h })
    } else if key == KEY_COUNT@ {
        if all_numbers(args) {
            Some(HeaderModel { count: numbers(args), ..h })
        } else {
            None
        }
    } else if key == KEY_WIDTH@ {
        if args.len() >= 1 && parse_decimal(args[0]) is Some {
            Some(HeaderModel { width: parse_decimal(args[0]).unwrap() as usize, ..h })
        } else {
            None
        }
    } else if key == KEY_HEIGHT@ {
        if args.len() >= 1 && parse_decimal(args[0]) is Some {
            Some(HeaderModel { height: parse_decimal(args[0]).unwrap() as usize, ..h })
        } else {
            None
        }
    } else if key == KEY_DATA@ {
        if args.len() >= 1 {
            Some(HeaderModel { data: args[0], ..h })
        } else {
            None
        }
    } else {
        Some(h)
    }
}

/// Where the line that starts at `pos` ends: at its line feed, or at the end
/// of `data`.
pub open spec fn line_end(data: Seq<u8>, pos: int) -> int {
    pos + index_of(data.skip(pos), NEWLINE)
}

/// Where the line after the one that starts at `pos` starts.
pub open spec fn next_line(data: Seq<u8>, pos: int) -> int {
    if line_end(data, pos) < data.len() {
        line_end(data, pos) + 1
    } else {
        line_end(data, pos)
    }
}

/// The header that the lines of `data` from `pos` on add to `h`, with the
/// position at which the body starts: the lines are applied in turn up to and
/// including the first `DATA` line. `None` where a line is malformed or the
/// data ends before a `DATA` line.
pub open spec fn parse_lines(data: Seq<u8>, pos: int, h: HeaderModel) -> Option<
    (HeaderModel, int),
>
    decreases data.len() - pos,
    via parse_lines_decreases
{
    if pos < 0 || pos >= data.len() {
        None
    } else {
        let tokens = split(data.subrange(pos, line_end(data, pos)), SPACE);
        match apply_line(h, tokens) {
            None => None,
            Some(h2) => if tokens[0] == KEY_DATA@ {
                Some((h2, next_line(data, pos)))
            } else {
                parse_lines(data, next_line(data, pos), h2)
            },
        }
    }
}

#[via_fn]
proof fn parse_lines_decreases(data: Seq<u8>, pos: int, h: HeaderModel) {
    if 0 <= pos < data.len() {
        lemma_index_of(data.skip(pos), NEWLINE);
    }
}

/// The header of a file and the position at which its body starts.
pub open spec fn parse_header(data: Seq<u8>) -> Option<(HeaderModel, int)> {
    parse_lines(data, 0, empty_header())
}

/// Reads every token as a number, or reports that one is none.
fn parse_numbers(tokens: &Vec<Vec<u8>>) -> (r: Option<Vec<usize>>)
    ensures
        match r {
            Some(v) => all_numbers(tokens_view(tokens@)) && v@ == numbers(tokens_view(tokens@)),
            None => !all_numbers(tokens_view(tokens@)),
        },
{
    let mut out: Vec<usize> = Vec::new();
    let mut i: usize = 0;
    let ghost view = tokens_view(tokens@);
    while i < tokens.len()
        invariant
            i <= tokens@.len(),
            view == tokens_view(tokens@),
            out@.len() == i,
            forall|j: int| 0 <= j < i ==> (#[trigger] parse_decimal(view[j])) is Some,
            forall|j: int| 0 <= j < i ==> out@[j] == parse_decimal(view[j]).unwrap() as usize,
        decreases tokens@.len() - i,
    {
        match parse_usize(tokens[i].as_slice()) {
            Some(v) => {
                out.push(v);
            },
            None => {
                proof {
                    assert(view[i as int] == tokens@[i as int]@);
                    assert(parse_decimal(view[i as int]) is None);
                }
                return None;
            },
        }
        i += 1;
    }
    proof {
        assert(out@ =~= numbers(view));
    }
    Some(out)
}

impl Default for PcdHeader {
    /// The header in which nothing is declared.
    fn default() -> (h: Self)
        ensures
            h@ == empty_header(),
    {
        PcdHeader::new()
    }
}

impl PcdHeader {
    /// The header in which nothing is declared.
    pub fn new() -> (h: Self)
        ensures
            h@ == empty_header(),
    {
        let h = PcdHeader {
            version: Vec::new(),
            fields: Vec::new(),
            size: Vec::new(),
            field_type: Vec::new(),
            count: Vec::new(),
            width: 0,
            height: 0,
            data: Vec::new(),
        };
        proof {
            assert(h@.fields =~= Seq::empty());
            assert(h@.field_type =~= Seq::empty());
        }
        h
    }

    /// The body's mode, if the `DATA` line names one of the three.
    pub fn mode(&self) -> (m: Option<DataMode>)
        ensures
            m == mode_of(self@.data),
    {
        if bytes_equal(self.data.as_slice(), &MODE_ASCII) {
            Some(DataMode::Ascii)
        } else if bytes_equal(self.data.as_slice(), &MODE_BINARY) {
            Some(DataMode::Binary)
        } else if bytes_equal(self.data.as_slice(), &MODE_BINARY_COMPRESSED) {
            Some(DataMode::BinaryCompressed)
        } else {
            None
        }
    }

    /// Takes in one header line, given as its tokens. Returns whether the line
    /// was well formed; the header is to be dropped if it was not.
    fn apply(&mut self, tokens: Vec<Vec<u8>>) -> (ok: bool)
        requires
            tokens@.len() >= 1,
        ensures
            match apply_line(old(self)@, tokens_view(tokens@)) {
                Some(h) => ok && final(self)@ == h,
                None => !ok,
            },
    {
        let mut tokens = tokens;
        let ghost all = tokens_view(tokens@);
        let key = tokens.remove(0);
        proof {
            assert(key@ == all[0]);
            assert(tokens_view(tokens@) =~= all.skip(1));
        }
        let ghost args = tokens_view(tokens@);
        if bytes_equal(key.as_slice(), &KEY_VERSION) {
            if tokens.len() == 0 {
                return false;
            }
            self.version = tokens.remove(0);
            proof {
                assert(self.version@ == args[0]);
            }
            true
        } else if bytes_equal(key.as_slice(), &KEY_FIELDS) {
            self.fields = tokens;
            true
        } else if bytes_equal(key.as_slice(), &KEY_SIZE) {
            match parse_numbers(&tokens) {
                Some(v) => {
                    self.size = v;
                    true
                },
                None => false,
            }
        } else if bytes_equal(key.as_slice(), &KEY_TYPE) {
            self.field_type = tokens;
            true
        } else if bytes_equal(key.as_slice(), &KEY_COUNT) {
            match parse_numbers(&tokens) {
                Some(v) => {
                    self.count = v;
                    true
                },
                None => false,
            }
        } else if bytes_equal(key.as_slice(), &KEY_WIDTH) {
            if tokens.len() == 0 {
                return false;
            }
            match parse_usize(tokens[0].as_slice()) {
                Some(v) => {
                    self.width = v;
                    true
                },
                None => false,
            }
        } else if bytes_equal(key.as_slice(), &KEY_HEIGHT) {
            if tokens.len() == 0 {
                return false;
            }
            match parse_usize(tokens[0].as_slice()) {
                Some(v) => {
                    self.height = v;
                    true
                },
                None => false,
            }
        } else if bytes_equal(key.as_slice(), &KEY_DATA) {
            if tokens.len() == 0 {
                return false;
            }
            self.data = tokens.remove(0);
            proof {
                assert(self.data@ == args[0]);
            }
            true
        } else {
            true
        }
    }

    /// Reads the header lines at the start of `data`, up to and including the
    /// `DATA` line, and returns the header with the position at which the body
    /// starts. Fails where a line is malformed or there is no `DATA` line.
    pub fn parse(data: &[u8]) -> (r: Result<(PcdHeader, usize), CloudError>)
        ensures
            match r {
                Ok((header, body)) => parse_header(data@) == Some((header@, body as int))
                    && body <= data@.len(),
                Err(e) => e == CloudError::FormatError && parse_header(data@) is None,
            },
    {
        let mut header = PcdHeader::new();
        let mut pos: usize = 0;
        while pos < data.len()
            invariant
                pos <= data@.len(),
                parse_header(data@) == parse_lines(data@, pos as int, header@),
            decreases data@.len() - pos,
        {
            let end = find_byte(data, pos, NEWLINE);
            let next: usize = if end < data.len() {
                end + 1
            } else {
                end
            };
            let tokens = split_tokens(data, pos, end);
            let is_last = bytes_equal(tokens[0].as_slice(), &KEY_DATA);
            proof {
                assert(tokens_view(tokens@)[0] == tokens@[0]@);
            }
            if !header.apply(tokens) {
                return Err(CloudError::FormatError);
            }
            if is_last {
                return Ok((header, next));
            }
            pos = next;
        }
        Err(CloudError::FormatError)
    }
}

} // verus!
