//! The tracking manifest: which branch each document is synchronised from.
use crate::branch::{GitHubRFDBranch, GitHubRFDRepo};
use crate::number::{decimal, RFDNumber};
use crate::text::{append_chars, chars_of, contains, contains_chars, equal_chars, utf8_text};
use vstd::prelude::*;
use vstd::utf8::*;

verus! {

/// Where the manifest lives on the default branch.
pub const MANIFEST_PATH: &'static str = "/.helpers/rfd.csv";

/// One document to synchronise, and the branch it is read from.
pub struct GitHubRFDUpdate {
    pub number: RFDNumber,
    pub branch: GitHubRFDBranch,
}

/// The records that the `csv` reader yields for a text, the header row first;
/// `None` for a record that it refuses.
pub uninterp spec fn csv_records_of(text: Seq<char>) -> Seq<Option<Seq<Seq<char>>>>;

/// The records as character strings.
pub open spec fn records_view(r: Seq<Option<Vec<String>>>) -> Seq<Option<Seq<Seq<char>>>> {
    r.map_values(|o: Option<Vec<String>>| match o {
        Some(v) => Some(v@.map_values(|s: String| s@)),
        None => None,
    })
}

/// Relies on `csv::ReaderBuilder` with `,` as delimiter, reading every row as a
/// record: the records are a function of the text alone.
#[verifier::external_body]
fn read_csv_records(text: &str) -> (r: Vec<Option<Vec<String>>>)
    ensures
        records_view(r@) == csv_records_of(text@),
{
    let mut reader = csv::ReaderBuilder::new().delimiter(b',').has_headers(false).from_reader(
        text.as_bytes(),
    );
    reader.records().map(|rec| rec.ok().map(|rec| rec.iter().map(|f| f.to_string()).collect()))
        .collect()
}

/// Whether `c` is an ASCII digit.
pub open spec fn is_digit(c: char) -> bool {
    48 <= (c as u32) <= 57
}

/// The value of a string of decimal digits.
pub open spec fn digits_value(s: Seq<char>) -> int
    decreases s.len(),
{
    if s.len() == 0 {
        0
    } else {
        digits_value(s.drop_last()) * 10 + ((s.last() as u32) - 48)
    }
}

/// The `i32` that a text stands for: an optional sign, then one or more
/// decimal digits, the value in range.
pub open spec fn i32_text(s: Seq<char>) -> Option<i32> {
    let signed = s.len() > 0 && (s[0] == '-' || s[0] == '+');
    let body = if signed { s.drop_first() } else { s };
    let magnitude = digits_value(body);
    let v = if signed && s[0] == '-' { -magnitude } else { magnitude };
    if body.len() > 0 && (forall|i: int| 0 <= i < body.len() ==> is_digit(#[trigger] body[i]))
        && i32::MIN <= v <= i32::MAX {
        Some(v as i32)
    } else {
        None
    }
}

/// Relies on `str::parse::<i32>`: an optional sign and decimal digits, in range.
#[verifier::external_body]
fn parse_i32(s: &str) -> (r: Option<i32>)
    ensures
        r == i32_text(s@),
{
    s.parse::<i32>().ok()
}

/// The index of the first column named `name`.
pub open spec fn column(header: Seq<Seq<char>>, name: Seq<char>) -> Option<int> {
    if exists|i: int| 0 <= i < header.len() && header[i] == name {
        Some(choose|i: int| 0 <= i < header.len() && header[i] == name && forall|j: int| 0 <= j < i ==> header[j] != name)
    } else {
        None
    }
}

/// The branch that a manifest row names: the default branch where its link
/// holds `/<default>/`, else the document number in decimal.
pub open spec fn row_branch(num: i32, link: Seq<char>, default_branch: Seq<char>) -> Seq<char> {
    if contains(link, seq!['/'] + default_branch + seq!['/']) {
        default_branch
    } else {
        decimal(num as int)
    }
}

/// The document number and branch of one manifest row, where it reads.
pub open spec fn row_entry(
    header: Seq<Seq<char>>,
    row: Option<Seq<Seq<char>>>,
    default_branch: Seq<char>,
) -> Option<(i32, Seq<char>)> {
    row_entry_at(row, column(header, "num"@), column(header, "link"@), default_branch)
}

/// The document number and branch of one manifest row, its number in column
/// `num_col` and its link in column `link_col`.
pub open spec fn row_entry_at(
    row: Option<Seq<Seq<char>>>,
    num_col: Option<int>,
    link_col: Option<int>,
    default_branch: Seq<char>,
) -> Option<(i32, Seq<char>)> {
    match (row, num_col, link_col) {
        (Some(fields), Some(n), Some(l)) => if n < fields.len() && l < fields.len() {
            match i32_text(fields[n]) {
                Some(num) => Some((num, row_branch(num, fields[l], default_branch))),
                None => None,
            }
        } else {
            None
        },
        _ => None,
    }
}

/// The entries of the rows that read, in order.
pub open spec fn manifest_entries(
    header: Seq<Seq<char>>,
    rows: Seq<Option<Seq<Seq<char>>>>,
    default_branch: Seq<char>,
) -> Seq<(i32, Seq<char>)>
    decreases rows.len(),
{
    if rows.len() == 0 {
        Seq::empty()
    } else {
        (match row_entry(header, rows[0], default_branch) {
            Some(e) => seq![e],
            None => Seq::empty(),
        }) + manifest_entries(header, rows.drop_first(), default_branch)
    }
}

/// The entries of a manifest text: its first record names the columns.
pub open spec fn manifest_of(text: Seq<char>, default_branch: Seq<char>) -> Seq<(i32, Seq<char>)> {
    let records = csv_records_of(text);
    if records.len() == 0 {
        Seq::empty()
    } else {
        match records[0] {
            Some(header) => manifest_entries(header, records.drop_first(), default_branch),
            None => Seq::empty(),
        }
    }
}

/// What an update says: its number and the branch's name.
pub open spec fn update_view(u: GitHubRFDUpdate) -> (i32, Seq<char>) {
    (u.number.0, u.branch.branch@)
}

fn find_column(header: &Vec<String>, name: &str) -> (r: Option<usize>)
    ensures
        col(r) == column(header@.map_values(|s: String| s@), name@),
{
    let ghost h = header@.map_values(|s: String| s@);
    let wanted = chars_of(name);
    let mut i: usize = 0;
    while i < header.len()
        invariant
            i <= header@.len(),
            h == header@.map_values(|s: String| s@),
            wanted@ == name@,
            forall|j: int| 0 <= j < i ==> h[j] != name@,
        decreases header@.len() - i,
    {
        if equal_chars(&chars_of(header[i].as_str()), &wanted) {
            assert(h[i as int] == name@);
            let ghost c = column(h, name@);
            proof {
                let k = c->0;
                assert(0 <= k < h.len() && h[k] == name@ && forall|j: int| 0 <= j < k ==> h[j] != name@);
                if k < i {
                } else if k > i {
                    assert(h[i as int] != name@);
                }
            }
            return Some(i);
        }
        i = i + 1;
    }
    None
}

/// A row as character strings.
pub open spec fn row_view(row: Option<Vec<String>>) -> Option<Seq<Seq<char>>> {
    match row {
        Some(v) => Some(v@.map_values(|s: String| s@)),
        None => None,
    }
}

pub open spec fn col(c: Option<usize>) -> Option<int> {
    match c {
        Some(i) => Some(i as int),
        None => None,
    }
}

impl GitHubRFDRepo {
    fn row_update(
        &self,
        row: &Option<Vec<String>>,
        num_col: Option<usize>,
        link_col: Option<usize>,
        marker: &Vec<char>,
    ) -> (r: Option<(i32, String)>)
        requires
            marker@ == seq!['/'] + self.default_branch@ + seq!['/'],
        ensures
            match r {
                Some((n, b)) => row_entry_at(row_view(*row), col(num_col), col(link_col), self.default_branch@)
                    == Some((n, b@)),
                None => row_entry_at(row_view(*row), col(num_col), col(link_col), self.default_branch@) is None,
            },
    {
        match (row, num_col, link_col) {
            (Some(fields), Some(n), Some(l)) => {
                if n >= fields.len() || l >= fields.len() {
                    return None;
                }
                assert(fields@.map_values(|s: String| s@)[n as int] == fields@[n as int]@);
                assert(fields@.map_values(|s: String| s@)[l as int] == fields@[l as int]@);
                match parse_i32(fields[n].as_str()) {
                    None => None,
                    Some(num) => {
                        let link = chars_of(fields[l].as_str());
                        if contains_chars(&link, marker) {
                            Some((num, self.default_branch.clone()))
                        } else {
                            Some((num, RFDNumber(num).decimal_string()))
                        }
                    },
                }
            },
            _ => None,
        }
    }

    /// The documents to synchronise, read from the manifest's bytes: one entry
    /// per row that reads, in order; rows that do not read are left out. Bytes
    /// that are no UTF-8 are refused.
    #[verifier::rlimit(40)]
    pub fn get_rfd_sync_updates(&self, manifest: &[u8]) -> (r: Result<Vec<GitHubRFDUpdate>, crate::branch::RFDError>)
        ensures
            r is Err <==> !valid_utf8(manifest@),
            r is Err ==> r == Err::<Vec<GitHubRFDUpdate>, crate::branch::RFDError>(crate::branch::RFDError::Undecodable),
            r is Ok ==> ({
                let v = r->Ok_0@;
                &&& v.map_values(|u: GitHubRFDUpdate| update_view(u)) == manifest_of(decode_utf8(manifest@), self.default_branch@)
                &&& forall|i: int| 0 <= i < v.len() ==> {
                    &&& (#[trigger] v[i]).branch.owner == self.owner
                    &&& v[i].branch.repo == self.repo
                    &&& v[i].branch.default_branch == self.default_branch
                }
            }),
    {
        let text = match utf8_text(manifest) {
            Some(t) => t,
            None => return Err(crate::branch::RFDError::Undecodable),
        };
        let records = read_csv_records(text.as_str());
        let ghost recs = csv_records_of(text@);
        let mut out: Vec<GitHubRFDUpdate> = Vec::new();
        if records.len() == 0 {
            assert(out@.map_values(|u: GitHubRFDUpdate| update_view(u)) =~= Seq::<(i32, Seq<char>)>::empty());
            return Ok(out);
        }
        let header = match &records[0] {
            Some(h) => h,
            None => {
                assert(out@.map_values(|u: GitHubRFDUpdate| update_view(u)) =~= Seq::<(i32, Seq<char>)>::empty());
                return Ok(out);
            },
        };
        let ghost hv = header@.map_values(|s: String| s@);
        assert(recs[0] == Some(hv));
        let num_col = find_column(header, "num");
        let link_col = find_column(header, "link");
        let mut marker = chars_of("/");
        proof {
            reveal_strlit("/");
        }
        append_chars(&mut marker, &chars_of(self.default_branch.as_str()));
        append_chars(&mut marker, &chars_of("/"));
        assert(marker@ =~= seq!['/'] + self.default_branch@ + seq!['/']);
        let ghost rows = recs.drop_first();
        let mut j: usize = 1;
        assert(rows.subrange(0, rows.len() as int) =~= rows);
        assert(Seq::<(i32, Seq<char>)>::empty() + manifest_entries(hv, rows, self.default_branch@) =~= manifest_entries(hv, rows, self.default_branch@));
        assert(out@.map_values(|u: GitHubRFDUpdate| update_view(u)) =~= Seq::<(i32, Seq<char>)>::empty());
        while j < records.len()
            invariant
                1 <= j <= records@.len(),
                recs == records_view(records@),
                rows == recs.drop_first(),
                hv == header@.map_values(|s: String| s@),
                marker@ == seq!['/'] + self.default_branch@ + seq!['/'],
                col(num_col) == column(hv, "num"@),
                col(link_col) == column(hv, "link"@),
                manifest_entries(hv, rows, self.default_branch@) == out@.map_values(|u: GitHubRFDUpdate| update_view(u))
                    + manifest_entries(hv, rows.subrange(j - 1, rows.len() as int), self.default_branch@),
                forall|i: int| 0 <= i < out@.len() ==> {
                    &&& (#[trigger] out@[i]).branch.owner == self.owner
                    &&& out@[i].branch.repo == self.repo
                    &&& out@[i].branch.default_branch == self.default_branch
                },
            decreases records@.len() - j,
        {
            let ghost rest = rows.subrange(j - 1, rows.len() as int);
            assert(rest.drop_first() =~= rows.subrange(j as int, rows.len() as int));
            assert(rest[0] == recs[j as int]);
            assert(recs[j as int] == row_view(records@[j as int]));
            let ghost before = out@.map_values(|u: GitHubRFDUpdate| update_view(u));
            let entry = self.row_update(&records[j], num_col, link_col, &marker);
            match entry {
                Some((num, branch_name)) => {
                    let ghost e = (num, branch_name@);
                    out.push(GitHubRFDUpdate { number: RFDNumber(num), branch: self.branch(branch_name) });
                    assert(out@.map_values(|u: GitHubRFDUpdate| update_view(u)) =~= before + seq![e]);
                },
                None => {},
            }
            j = j + 1;
        }
        assert(rows.subrange(rows.len() as int, rows.len() as int) =~= Seq::<Option<Seq<Seq<char>>>>::empty());
        assert(out@.map_values(|u: GitHubRFDUpdate| update_view(u)) + Seq::<(i32, Seq<char>)>::empty() =~= out@.map_values(|u: GitHubRFDUpdate| update_view(u)));
        Ok(out)
    }
}

} // verus!
