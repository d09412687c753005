//! Typed records of `zfs list -Hp` lines: one line, six tab-separated
//! fields `guid createtxg creation type used name`, with `used` a number.

use vstd::prelude::*;
use crate::text::{
    concat, decimal_digits, join_with, law_split_inverts_join, lines_of, parse_u64, parsed_u64,
    split_on, split_on_char, text_lines, u64_to_decimal, views,
};

verus! {

/// A filesystem as one `zfs list -Hp` line describes it.
#[derive(Debug, Clone)]
pub struct Filesystem {
    pub guid: String,
    pub createtxg: String,
    pub creation: String,
    pub fs_type: String,
    pub used: u64,
    pub name: String,
}

/// Why a line does not describe a filesystem.
#[derive(Debug, Clone, PartialEq, Eq)]
pub enum ParseFsLineError {
    /// The line does not have exactly six fields; the number it has.
    WrongFieldCount(usize),
    /// The `used` field is not a number; its text.
    InvalidUsed(String),
}

/// The fields of a line.
pub open spec fn line_fields(line: Seq<char>) -> Seq<Seq<char>> {
    split_on(line, '\t')
}

/// Whether a line describes a filesystem: six fields, the fifth a `u64`.
pub open spec fn line_ok(line: Seq<char>) -> bool {
    let p = line_fields(line);
    p.len() == 6 && parsed_u64(p[4]) is Some
}

/// `line_ok` as a predicate.
pub open spec fn line_ok_pred() -> spec_fn(Seq<char>) -> bool {
    |l: Seq<char>| line_ok(l)
}

/// Whether `fs` is the filesystem that `line` describes.
pub open spec fn describes(fs: Filesystem, line: Seq<char>) -> bool {
    let p = line_fields(line);
    &&& p.len() == 6
    &&& fs.guid@ == p[0]
    &&& fs.createtxg@ == p[1]
    &&& fs.creation@ == p[2]
    &&& fs.fs_type@ == p[3]
    &&& parsed_u64(p[4]) == Some(fs.used)
    &&& fs.name@ == p[5]
}

/// Whether `e` is the error that `line` gives: the field count when it is
/// not six, else the text of the `used` field that is not a number.
pub open spec fn error_for(e: ParseFsLineError, line: Seq<char>) -> bool {
    let p = line_fields(line);
    if p.len() != 6 {
        e == ParseFsLineError::WrongFieldCount(p.len() as usize)
    } else {
        parsed_u64(p[4]) is None && (e matches ParseFsLineError::InvalidUsed(m) && m@ == p[4])
    }
}

/// The text of a filesystem: `name (type, used bytes used)`.
pub open spec fn display_text(fs: Filesystem) -> Seq<char> {
    fs.name@ + " ("@ + fs.fs_type@ + ", "@ + decimal_digits(fs.used as nat) + " bytes used)"@
}

impl Filesystem {
    /// Reads a filesystem from one `zfs list -Hp` line.
    pub fn parse_line(line: &str) -> (res: Result<Filesystem, ParseFsLineError>)
        ensures
            res is Ok <==> line_ok(line@),
            res matches Ok(fs) ==> describes(fs, line@),
            res matches Err(e) ==> error_for(e, line@),
    {
        let parts = split_on_char(line, '\t');
        if parts.len() != 6 {
            return Err(ParseFsLineError::WrongFieldCount(parts.len()));
        }
        assert(parts@[4]@ == line_fields(line@)[4]);
        let used = match parse_u64(parts[4].as_str()) {
            Some(u) => u,
            None => {
                return Err(ParseFsLineError::InvalidUsed(parts[4].clone()));
            },
        };
        assert(parts@[0]@ == line_fields(line@)[0]);
        assert(parts@[1]@ == line_fields(line@)[1]);
        assert(parts@[2]@ == line_fields(line@)[2]);
        assert(parts@[3]@ == line_fields(line@)[3]);
        assert(parts@[5]@ == line_fields(line@)[5]);
        Ok(
            Filesystem {
                guid: parts[0].clone(),
                createtxg: parts[1].clone(),
                creation: parts[2].clone(),
                fs_type: parts[3].clone(),
                used,
                name: parts[5].clone(),
            },
        )
    }

    /// The text of this filesystem: `name (type, used bytes used)`.
    pub fn display_string(&self) -> (res: String)
        ensures
            res@ == display_text(*self),
    {
        let a = concat(self.name.as_str(), " (");
        let b = concat(a.as_str(), self.fs_type.as_str());
        let c = concat(b.as_str(), ", ");
        let n = u64_to_decimal(self.used);
        let d = concat(c.as_str(), n.as_str());
        concat(d.as_str(), " bytes used)")
    }
}

impl std::str::FromStr for Filesystem {
    type Err = ParseFsLineError;

    fn from_str(line: &str) -> (res: Result<Filesystem, ParseFsLineError>)
        ensures
            res is Ok <==> line_ok(line@),
            res matches Ok(fs) ==> describes(fs, line@),
            res matches Err(e) ==> error_for(e, line@),
    {
        Filesystem::parse_line(line)
    }
}

/// The summary of one snapshot.
#[derive(Debug, Clone)]
pub struct SnapshotSummary {
    pub name: String,
    pub creation: String,
}

/// Something that can describe itself in one line.
pub trait Reportable {
    /// The line that describes `self`.
    spec fn report_text(&self) -> Seq<char>;

    /// Describes `self` in one line.
    fn report(&self) -> (res: String)
        ensures
            res@ == self.report_text(),
    ;
}

impl Reportable for Filesystem {
    /// `filesystem ` followed by the filesystem's text.
    open spec fn report_text(&self) -> Seq<char> {
        "filesystem "@ + display_text(*self)
    }

    fn report(&self) -> (res: String) {
        let d = self.display_string();
        concat("filesystem ", d.as_str())
    }
}

impl Reportable for SnapshotSummary {
    /// `snapshot NAME created CREATION`.
    open spec fn report_text(&self) -> Seq<char> {
        "snapshot "@ + self.name@ + " created "@ + self.creation@
    }

    fn report(&self) -> (res: String) {
        let a = concat("snapshot ", self.name.as_str());
        let b = concat(a.as_str(), " created ");
        concat(b.as_str(), self.creation.as_str())
    }
}

/// Reads every line of `text`, stopping at the first line that does not
/// describe a filesystem and returning its error.
pub fn parse_all_strict(text: &str) -> (res: Result<Vec<Filesystem>, ParseFsLineError>)
    ensures
        res is Ok <==> (forall|i: int|
            0 <= i < lines_of(text@).len() ==> line_ok(#[trigger] lines_of(text@)[i])),
        res matches Ok(v) ==> v@.len() == lines_of(text@).len() && forall|i: int|
            0 <= i < v@.len() ==> describes(#[trigger] v@[i], lines_of(text@)[i]),
        res matches Err(e) ==> exists|i: int|
            0 <= i < lines_of(text@).len() && !line_ok(#[trigger] lines_of(text@)[i]) && error_for(
                e,
                lines_of(text@)[i],
            ) && forall|j: int| 0 <= j < i ==> line_ok(#[trigger] lines_of(text@)[j]),
{
    let lines = text_lines(text);
    let ghost ls = lines_of(text@);
    let mut out: Vec<Filesystem> = Vec::new();
    let mut i: usize = 0;
    while i < lines.len()
        invariant
            views(lines@) == ls,
            ls == lines_of(text@),
            i <= lines@.len(),
            out@.len() == i,
            forall|j: int| 0 <= j < i ==> line_ok(#[trigger] ls[j]),
            forall|j: int| 0 <= j < i ==> describes(#[trigger] out@[j], ls[j]),
        decreases lines@.len() - i,
    {
        assert(lines@[i as int]@ == ls[i as int]);
        match Filesystem::parse_line(lines[i].as_str()) {
            Ok(fs) => {
                out.push(fs);
            },
            Err(e) => {
                assert(!line_ok(lines_of(text@)[i as int]));
                assert(error_for(e, lines_of(text@)[i as int]));
                assert(forall|j: int| 0 <= j < i ==> line_ok(#[trigger] lines_of(text@)[j]));
                return Err(e);
            },
        }
        i = i + 1;
    }
    Ok(out)
}

/// Reads the lines of `text` that describe a filesystem, skipping the
/// others.
pub fn parse_all_lenient(text: &str) -> (res: Vec<Filesystem>)
    ensures
        res@.len() == lines_of(text@).filter(line_ok_pred()).len(),
        forall|k: int|
            0 <= k < res@.len() ==> describes(
                #[trigger] res@[k],
                lines_of(text@).filter(line_ok_pred())[k],
            ),
{
    let lines = text_lines(text);
    let ghost ls = lines_of(text@);
    let ghost ok = line_ok_pred();
    let mut out: Vec<Filesystem> = Vec::new();
    let mut i: usize = 0;
    proof {
        reveal(Seq::filter);
        assert(ls.take(0) == Seq::<Seq<char>>::empty());
    }
    while i < lines.len()
        invariant
            views(lines@) == ls,
            ls == lines_of(text@),
            ok == line_ok_pred(),
            i <= lines@.len(),
            out@.len() == ls.take(i as int).filter(ok).len(),
            forall|k: int|
                0 <= k < out@.len() ==> describes(#[trigger] out@[k], ls.take(i as int).filter(ok)[k]),
        decreases lines@.len() - i,
    {
        let ghost before = out@;
        proof {
            reveal(Seq::filter);
            assert(ls.take(i + 1).drop_last() == ls.take(i as int));
            assert(ls.take(i + 1).last() == ls[i as int]);
            assert(ls.take(i + 1).filter(ok) == if ok(ls[i as int]) {
                ls.take(i as int).filter(ok).push(ls[i as int])
            } else {
                ls.take(i as int).filter(ok)
            });
        }
        assert(lines@[i as int]@ == ls[i as int]);
        match Filesystem::parse_line(lines[i].as_str()) {
            Ok(fs) => {
                out.push(fs);
                assert(ok(ls[i as int]));
                assert(out@ == before.push(fs));
            },
            Err(_) => {
                assert(!ok(ls[i as int]));
            },
        }
        i = i + 1;
    }
    assert(ls.take(lines@.len() as int) == ls);
    out
}

/// A line made of six fields without tabs, joined by tabs, whose fifth
/// field is a `u64`, describes the filesystem with exactly those fields.
pub proof fn law_line_of_six_fields_round_trips(fields: Seq<Seq<char>>)
    requires
        fields.len() == 6,
        forall|i: int| 0 <= i < 6 ==> !(#[trigger] fields[i]).contains('\t'),
        parsed_u64(fields[4]) is Some,
    ensures
        line_fields(join_with(fields, '\t')) == fields,
        line_ok(join_with(fields, '\t')),
{
    law_split_inverts_join(fields, '\t');
}

/// When every line of a text describes a filesystem, lenient reading keeps
/// every line: it then agrees with strict reading.
pub proof fn law_lenient_keeps_every_line_of_valid_text(text: Seq<char>)
    requires
        forall|i: int| 0 <= i < lines_of(text).len() ==> line_ok(#[trigger] lines_of(text)[i]),
    ensures
        lines_of(text).filter(line_ok_pred()) == lines_of(text),
{
    lemma_filter_all(lines_of(text), line_ok_pred());
}

proof fn lemma_filter_all(s: Seq<Seq<char>>, p: spec_fn(Seq<char>) -> bool)
    requires
        forall|i: int| 0 <= i < s.len() ==> p(#[trigger] s[i]),
    ensures
        s.filter(p) == s,
    decreases s.len(),
{
    reveal(Seq::filter);
    if s.len() > 0 {
        lemma_filter_all(s.drop_last(), p);
        assert(s.drop_last().push(s.last()) == s);
    }
}

} // verus!
