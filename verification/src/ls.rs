//! Long listings: permissions by class of user.

use crate::text::{decimal_string, decimal_text, left_aligned, push_left, push_number};
use crate::text::{right_aligned, views};
use tabular::{Row, Table};
use vstd::prelude::*;

verus! {

/// A class of users that a file's permissions speak of.
#[derive(Debug, Clone, Copy, PartialEq, Eq, Structural)]
pub enum Owner {
    User,
    Group,
    Other,
}

impl Owner {
    /// The bits for reading, writing and executing of this class.
    pub open spec fn masks_spec(self) -> (u32, u32, u32) {
        match self {
            Owner::User => (0o400, 0o200, 0o100),
            Owner::Group => (0o040, 0o020, 0o010),
            Owner::Other => (0o004, 0o002, 0o001),
        }
    }

    /// The bits for reading, writing and executing of this class.
    pub fn masks(&self) -> (m: [u32; 3])
        ensures
            (m[0], m[1], m[2]) == self.masks_spec(),
    {
        match self {
            Owner::User => [0o400, 0o200, 0o100],
            Owner::Group => [0o040, 0o020, 0o010],
            Owner::Other => [0o004, 0o002, 0o001],
        }
    }
}

/// The letter for one permission: `letter` where `mode` has a bit of
/// `mask`, a dash otherwise.
pub open spec fn flag(mode: u32, mask: u32, letter: char) -> char {
    if mode & mask == 0 {
        '-'
    } else {
        letter
    }
}

/// The three characters that `mode` grants to `owner`.
pub open spec fn triple(mode: u32, owner: Owner) -> Seq<char> {
    let (read, write, execute) = owner.masks_spec();
    seq![flag(mode, read, 'r'), flag(mode, write, 'w'), flag(mode, execute, 'x')]
}

/// The nine characters of a mode: user, group, others.
pub open spec fn mode_text(mode: u32) -> Seq<char> {
    triple(mode, Owner::User) + triple(mode, Owner::Group) + triple(mode, Owner::Other)
}

/// Appends the three characters that `mode` grants to `owner`.
fn push_triple(out: &mut String, mode: u32, owner: Owner)
    ensures
        final(out)@ == old(out)@ + triple(mode, owner),
{
    let m = owner.masks();
    out.push(if mode & m[0] == 0 { '-' } else { 'r' });
    out.push(if mode & m[1] == 0 { '-' } else { 'w' });
    out.push(if mode & m[2] == 0 { '-' } else { 'x' });
}

/// Given a mode like `0o500` and an `Owner`, returns a string like `r-x`.
pub fn mk_triple(mode: u32, owner: Owner) -> (s: String)
    ensures
        s@ == triple(mode, owner),
{
    let mut s = String::new();
    push_triple(&mut s, mode, owner);
    s
}

/// Given a file mode like `0o751`, returns a string like `rwxr-x--x`.
pub fn format_mode(mode: u32) -> (s: String)
    ensures
        s@ == mode_text(mode),
{
    let mut s = String::new();
    push_triple(&mut s, mode, Owner::User);
    push_triple(&mut s, mode, Owner::Group);
    push_triple(&mut s, mode, Owner::Other);
    s
}

/// What a long listing shows of one file.
#[derive(Debug)]
pub struct LongEntry {
    pub is_dir: bool,
    pub mode: u32,
    pub nlink: u64,
    pub user: String,
    pub group: String,
    pub len: u64,
    /// The time of the last change, as it is to be shown.
    pub modified: String,
    pub path: String,
}

/// Whether a file is listed: every file is where hidden files are shown,
/// and otherwise those whose name does not begin with a dot.
pub open spec fn is_listed(file_name: Seq<char>, show_hidden: bool) -> bool {
    show_hidden || !(file_name.len() > 0 && file_name[0] == '.')
}

/// Whether a file of this name is listed.
pub fn lists(file_name: &str, show_hidden: bool) -> (b: bool)
    ensures
        b == is_listed(file_name@, show_hidden),
{
    if show_hidden {
        return true;
    }
    if file_name.is_empty() {
        return true;
    }
    file_name.get_char(0) != '.'
}

/// The name of the owner of a file: the name found for the number, or the
/// number itself where none was found.
pub fn owner_name(found: Option<String>, id: u32) -> (name: String)
    ensures
        name@ == (match found {
            Some(n) => n@,
            None => decimal_text(id as nat),
        }),
{
    match found {
        Some(n) => n,
        None => decimal_string(id as u64),
    }
}

/// The letter for the kind of a file: `d` for a directory, a dash for
/// anything else.
pub open spec fn kind_letter(is_dir: bool) -> char {
    if is_dir {
        'd'
    } else {
        '-'
    }
}

/// The first `n` characters of `s`, or all of it where it is shorter.
pub open spec fn clipped(s: Seq<char>, n: nat) -> Seq<char> {
    if s.len() > n {
        s.take(n as int)
    } else {
        s
    }
}

/// One line of a long listing: kind and permissions, the number of links
/// in a column of two, user and group in columns of eight, the size in a
/// column of eight, the time and the path. A user name longer than eight
/// characters is cut.
pub open spec fn long_line(entry: LongEntry) -> Seq<char> {
    seq![kind_letter(entry.is_dir)] + mode_text(entry.mode) + seq![' '] + right_aligned(
        decimal_text(entry.nlink as nat),
        2,
    ) + seq![' '] + left_aligned(clipped(entry.user@, 8), 8) + seq![' '] + left_aligned(
        entry.group@,
        8,
    ) + seq![' '] + right_aligned(decimal_text(entry.len as nat), 8) + seq![' ']
        + entry.modified@ + seq![' '] + entry.path@
}

/// The first `n` characters of `s`, or all of it where it is shorter.
fn clip(s: &str, n: usize) -> (r: &str)
    ensures
        r@ == clipped(s@, n as nat),
{
    if s.unicode_len() > n {
        let r = s.substring_char(0, n);
        r
    } else {
        s
    }
}

/// How one file shows in a listing: its path alone, or a whole line where
/// the listing is long.
pub fn format_line(entry: &LongEntry, long: bool) -> (s: String)
    ensures
        long ==> s@ == long_line(*entry),
        !long ==> s@ == entry.path@,
{
    if !long {
        return entry.path.clone();
    }
    let mut s = String::new();
    s.push(if entry.is_dir { 'd' } else { '-' });
    push_triple(&mut s, entry.mode, Owner::User);
    push_triple(&mut s, entry.mode, Owner::Group);
    push_triple(&mut s, entry.mode, Owner::Other);
    s.push(' ');
    push_number(&mut s, entry.nlink, 2);
    s.push(' ');
    push_left(&mut s, clip(entry.user.as_str(), 8), 8);
    s.push(' ');
    push_left(&mut s, entry.group.as_str(), 8);
    s.push(' ');
    push_number(&mut s, entry.len, 8);
    s.push(' ');
    s.push_str(entry.modified.as_str());
    s.push(' ');
    s.push_str(entry.path.as_str());
    s
}

/// A table of the `tabular` crate.
#[verifier::external_type_specification]
#[verifier::external_body]
pub struct ExTable(tabular::Table);

/// Whether `tabular` can read `row_spec` as the format of a table's rows.
pub uninterp spec fn format_is_valid(row_spec: Seq<char>) -> bool;

/// The number of columns that the format `row_spec` asks for.
pub uninterp spec fn format_columns(row_spec: Seq<char>) -> nat;

/// The format that a table was made with.
pub uninterp spec fn table_format(table: Table) -> Seq<char>;

/// The rows of a table, each a row of cells.
pub uninterp spec fn table_rows(table: Table) -> Seq<Seq<Seq<char>>>;

/// The text that `tabular` prints for a table of the given format and
/// rows.
pub uninterp spec fn table_text(format: Seq<char>, rows: Seq<Seq<Seq<char>>>) -> Seq<char>;

/// `Table::new_safe`: an empty table for rows of the format `row_spec`, or
/// nothing where `tabular` cannot read the format.
#[verifier::external_body]
fn table_new(row_spec: &str) -> (r: Option<Table>)
    ensures
        r is Some == format_is_valid(row_spec@),
        r matches Some(table) ==> table_format(table) == row_spec@ && table_rows(table)
            == Seq::<Seq<Seq<char>>>::empty(),
{
    match Table::new_safe(row_spec) {
        Ok(table) => Some(table),
        Err(_) => None,
    }
}

/// `Table::column_count`: the number of columns of the table, which is
/// the number that its format asks for.
#[verifier::external_body]
fn table_column_count(table: &Table) -> (n: usize)
    ensures
        n == format_columns(table_format(*table)),
{
    table.column_count()
}

/// `Table::add_row`, with a row made by `Row::from_cells`: appends a row of
/// cells to the table. The row must have as many cells as the table has
/// columns.
#[verifier::external_body]
fn table_add_row(table: &mut Table, cells: &Vec<String>)
    requires
        cells@.len() == format_columns(table_format(*old(table))),
    ensures
        table_format(*final(table)) == table_format(*old(table)),
        table_rows(*final(table)) == table_rows(*old(table)).push(views(cells@)),
{
    table.add_row(Row::from_cells(cells.iter().cloned()));
}

/// `Table`'s `Display`: the text of the table, its columns lined up.
#[verifier::external_body]
fn table_to_string(table: &Table) -> (s: String)
    ensures
        s@ == table_text(table_format(*table), table_rows(*table)),
{
    table.to_string()
}

/// The format of the rows of a long listing: kind and permissions
/// together, links, user, group, size, time and path.
pub open spec fn listing_format() -> Seq<char> {
    "{:<}{:<} {:>} {:<} {:<} {:>} {:<} {:<}"@
}

/// The eight cells that a long listing shows of one file.
pub open spec fn cells_of(entry: LongEntry) -> Seq<Seq<char>> {
    seq![
        seq![kind_letter(entry.is_dir)],
        mode_text(entry.mode),
        decimal_text(entry.nlink as nat),
        entry.user@,
        entry.group@,
        decimal_text(entry.len as nat),
        entry.modified@,
        entry.path@,
    ]
}

/// The rows of cells of a long listing.
pub open spec fn rows_of(entries: Seq<LongEntry>) -> Seq<Seq<Seq<char>>> {
    entries.map_values(|entry: LongEntry| cells_of(entry))
}

/// The eight cells that a long listing shows of one file.
pub fn entry_cells(entry: &LongEntry) -> (cells: Vec<String>)
    ensures
        views(cells@) == cells_of(*entry),
{
    let mut kind = String::new();
    kind.push(if entry.is_dir { 'd' } else { '-' });
    let mut cells: Vec<String> = Vec::new();
    cells.push(kind);
    cells.push(format_mode(entry.mode));
    cells.push(decimal_string(entry.nlink));
    cells.push(entry.user.clone());
    cells.push(entry.group.clone());
    cells.push(decimal_string(entry.len));
    cells.push(entry.modified.clone());
    cells.push(entry.path.clone());
    cells
}

/// Formats a long listing as a table whose columns line up. Nothing comes
/// back where `tabular` does not take the format of the rows as one of
/// eight columns.
pub fn format_output(entries: &Vec<LongEntry>) -> (r: Option<String>)
    ensures
        r is Some == (format_is_valid(listing_format()) && format_columns(listing_format()) == 8),
        r matches Some(s) ==> s@ == table_text(listing_format(), rows_of(entries@)),
{
    let mut table = match table_new("{:<}{:<} {:>} {:<} {:<} {:>} {:<} {:<}") {
        Some(table) => table,
        None => {
            return None;
        },
    };
    if table_column_count(&table) != 8 {
        return None;
    }
    let mut i: usize = 0;
    while i < entries.len()
        invariant
            i <= entries.len(),
            table_format(table) == listing_format(),
            format_columns(listing_format()) == 8,
            table_rows(table) == rows_of(entries@).take(i as int),
        decreases entries.len() - i,
    {
        let cells = entry_cells(&entries[i]);
        assert(views(cells@).len() == 8);
        table_add_row(&mut table, &cells);
        i += 1;
    }
    assert(rows_of(entries@).take(i as int) =~= rows_of(entries@));
    Some(table_to_string(&table))
}

} // verus!
