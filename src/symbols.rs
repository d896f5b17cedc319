//! Debug symbols: one record per line, `z <addr> <len> <name>` for a
//! zero-page variable, `l <addr> <name>` for a label and `p <addr> <tokens>`
//! for a display placeholder. Malformed lines are skipped.
use std::collections::BTreeMap;

use vstd::prelude::*;

verus! {

broadcast use {vstd::laws_cmp::group_laws_cmp, vstd::string::group_string_axioms};

/// Expression tree of a placeholder, over character sequences.
pub enum Expr {
    Literal(Seq<char>),
    Unary(Seq<char>, Box<Expr>),
    Binary(Seq<char>, Box<Expr>, Box<Expr>),
}

/// Display placeholder: an expression over symbol names.
pub enum Placeholder {
    Literal { val: String },
    Unary { name: String, val: Box<Placeholder> },
    Binary { name: String, lhs: Box<Placeholder>, rhs: Box<Placeholder> },
}

/// The token list ended before the expression did.
#[derive(Clone, Copy, Debug, PartialEq, Eq, Structural)]
pub enum PlaceholderError {
    MissingToken,
}

pub open spec fn expr_of(p: Placeholder) -> Expr
    decreases p,
{
    match p {
        Placeholder::Literal { val } => Expr::Literal(val@),
        Placeholder::Unary { name, val } => Expr::Unary(name@, Box::new(expr_of(*val))),
        Placeholder::Binary { name, lhs, rhs } => Expr::Binary(
            name@,
            Box::new(expr_of(*lhs)),
            Box::new(expr_of(*rhs)),
        ),
    }
}

/// Text of an expression: `name(val)` for a unary one, `lhs name rhs` for a binary one.
pub open spec fn expr_text(e: Expr) -> Seq<char>
    decreases e,
{
    match e {
        Expr::Literal(v) => v,
        Expr::Unary(name, val) => name + "("@ + expr_text(*val) + ")"@,
        Expr::Binary(name, lhs, rhs) => expr_text(*lhs) + " "@ + name + " "@ + expr_text(*rhs),
    }
}

/// Prefix parse of a token list: `hi`/`lo` take one operand, `add` two,
/// `zp` is skipped, any other token is a literal. Gives the expression and
/// the number of tokens used, or `None` when the tokens run out.
pub open spec fn parse_spec(toks: Seq<Seq<char>>) -> Option<(Expr, nat)>
    decreases toks.len(),
{
    if toks.len() == 0 {
        None
    } else {
        let t = toks[0];
        let rest = toks.drop_first();
        if t == "hi"@ || t == "lo"@ {
            match parse_spec(rest) {
                Some((e, n)) => Some((Expr::Unary(t, Box::new(e)), n + 1)),
                None => None,
            }
        } else if t == "add"@ {
            match parse_spec(rest) {
                Some((l, ln)) => if ln <= rest.len() {
                    match parse_spec(rest.subrange(ln as int, rest.len() as int)) {
                        Some((r, rn)) => Some(
                            (Expr::Binary(t, Box::new(l), Box::new(r)), ln + rn + 1),
                        ),
                        None => None,
                    }
                } else {
                    None
                },
                None => None,
            }
        } else if t == "zp"@ {
            match parse_spec(rest) {
                Some((e, n)) => Some((e, n + 1)),
                None => None,
            }
        } else {
            Some((Expr::Literal(t), 1))
        }
    }
}

/// The character sequences of a list of words.
pub open spec fn words(ts: Seq<&str>) -> Seq<Seq<char>> {
    ts.map_values(|t: &str| t@)
}

/// A parse uses at least one token and no more than there are.
proof fn lemma_parse_len(toks: Seq<Seq<char>>)
    ensures
        parse_spec(toks) matches Some((_, n)) ==> 1 <= n <= toks.len(),
    decreases toks.len(),
{
    if toks.len() > 0 {
        let rest = toks.drop_first();
        lemma_parse_len(rest);
        if let Some((_, ln)) = parse_spec(rest) {
            if ln <= rest.len() {
                lemma_parse_len(rest.subrange(ln as int, rest.len() as int));
            }
        }
    }
}

/// Whether two words hold the same characters.
fn same_word(t: &str, w: &str) -> (r: bool)
    ensures
        r == (t@ == w@),
{
    let n = t.unicode_len();
    if n != w.unicode_len() {
        return false;
    }
    let mut i: usize = 0;
    while i < n
        invariant
            n == t@.len(),
            n == w@.len(),
            i <= n,
            forall|j: int| 0 <= j < i ==> t@[j] == w@[j],
        decreases n - i,
    {
        if t.get_char(i) != w.get_char(i) {
            return false;
        }
        i += 1;
    }
    assert(t@ =~= w@);
    true
}

impl Placeholder {
    /// Parses a placeholder from the front of `tokens`; returns it with the
    /// number of tokens it used.
    pub fn parse(tokens: &[&str]) -> (r: Result<(Placeholder, usize), PlaceholderError>)
        ensures
            match r {
                Ok((p, n)) => parse_spec(words(tokens@)) == Some((expr_of(p), n as nat)),
                Err(_) => parse_spec(words(tokens@)) is None,
            },
    {
        let r = Self::parse_from(tokens, 0);
        assert(words(tokens@).subrange(0, tokens@.len() as int) =~= words(tokens@));
        r
    }

    /// Parses a placeholder from `tokens[start..]`.
    fn parse_from(tokens: &[&str], start: usize) -> (r: Result<(Placeholder, usize), PlaceholderError>)
        requires
            start <= tokens@.len(),
        ensures
            match r {
                Ok((p, n)) => parse_spec(words(tokens@).subrange(start as int, tokens@.len() as int))
                    == Some((expr_of(p), n as nat)),
                Err(_) => parse_spec(
                    words(tokens@).subrange(start as int, tokens@.len() as int),
                ) is None,
            },
        decreases tokens@.len() - start,
    {
        let ghost toks = words(tokens@).subrange(start as int, tokens@.len() as int);
        let ghost rest = toks.drop_first();
        if start >= tokens.len() {
            return Err(PlaceholderError::MissingToken);
        }
        let token = tokens[start];
        assert(toks[0] == token@);
        assert(rest =~= words(tokens@).subrange(start + 1, tokens@.len() as int));
        if same_word(token, "hi") || same_word(token, "lo") {
            match Self::parse_from(tokens, start + 1) {
                Ok((val, n)) => {
                    proof {
                        lemma_parse_len(rest);
                    }
                    Ok((Placeholder::Unary { name: String::from_str(token), val: Box::new(val) }, n + 1))
                },
                Err(e) => Err(e),
            }
        } else if same_word(token, "add") {
            match Self::parse_from(tokens, start + 1) {
                Ok((lhs, lhs_len)) => {
                    proof {
                        lemma_parse_len(rest);
                    }
                    assert(rest.subrange(lhs_len as int, rest.len() as int) =~= words(
                        tokens@,
                    ).subrange(start + 1 + lhs_len, tokens@.len() as int));
                    match Self::parse_from(tokens, start + 1 + lhs_len) {
                        Ok((rhs, rhs_len)) => {
                            proof {
                                lemma_parse_len(rest.subrange(lhs_len as int, rest.len() as int));
                            }
                            Ok(
                                (
                                    Placeholder::Binary {
                                        name: String::from_str(token),
                                        lhs: Box::new(lhs),
                                        rhs: Box::new(rhs),
                                    },
                                    lhs_len + rhs_len + 1,
                                ),
                            )
                        },
                        Err(e) => Err(e),
                    }
                },
                Err(e) => Err(e),
            }
        } else if same_word(token, "zp") {
            match Self::parse_from(tokens, start + 1) {
                Ok((val, n)) => {
                    proof {
                        lemma_parse_len(rest);
                    }
                    Ok((val, n + 1))
                },
                Err(e) => Err(e),
            }
        } else {
            Ok((Placeholder::Literal { val: String::from_str(token) }, 1))
        }
    }

    /// Text form: `name(val)` for a unary placeholder, `lhs name rhs` for a binary one.
    pub fn to_text(&self) -> (r: String)
        ensures
            r@ == expr_text(expr_of(*self)),
        decreases self,
    {
        match self {
            Placeholder::Literal { val } => val.clone(),
            Placeholder::Unary { name, val } => {
                let mut s = name.clone();
                s.append("(");
                let inner = val.to_text();
                s.append(inner.as_str());
                s.append(")");
                s
            },
            Placeholder::Binary { name, lhs, rhs } => {
                let mut s = lhs.to_text();
                s.append(" ");
                s.append(name.as_str());
                s.append(" ");
                let right = rhs.to_text();
                s.append(right.as_str());
                s
            },
        }
    }
}

/// Pieces of `s` between single spaces, empty pieces included; an empty
/// string is one empty piece.
pub open spec fn split_spec(s: Seq<char>) -> Seq<Seq<char>>
    decreases s.len(),
{
    if s.len() == 0 {
        seq![Seq::<char>::empty()]
    } else {
        let p = split_spec(s.drop_last());
        if s.last() == ' ' {
            p.push(Seq::empty())
        } else {
            p.update(p.len() - 1, p.last().push(s.last()))
        }
    }
}

proof fn lemma_split_nonempty(s: Seq<char>)
    ensures
        split_spec(s).len() >= 1,
    decreases s.len(),
{
    if s.len() > 0 {
        lemma_split_nonempty(s.drop_last());
    }
}

/// Splits a line at every space.
fn split_words<'a>(line: &'a str) -> (r: Vec<&'a str>)
    ensures
        words(r@) == split_spec(line@),
{
    let n = line.unicode_len();
    let mut pieces: Vec<&'a str> = Vec::new();
    let mut start: usize = 0;
    let mut i: usize = 0;
    assert(line@.subrange(0, 0) =~= Seq::<char>::empty());
    assert(words(pieces@) =~= Seq::<Seq<char>>::empty());
    assert(words(pieces@).push(line@.subrange(0, 0)) =~= split_spec(line@.subrange(0, 0)));
    while i < n
        invariant
            n == line@.len(),
            start <= i <= n,
            words(pieces@).push(line@.subrange(start as int, i as int)) == split_spec(
                line@.subrange(0, i as int),
            ),
        decreases n - i,
    {
        let ghost prefix = line@.subrange(0, i as int);
        let ghost next = line@.subrange(0, i + 1);
        assert(next.drop_last() =~= prefix);
        proof {
            lemma_split_nonempty(prefix);
        }
        if line.get_char(i) == ' ' {
            let piece = line.substring_char(start, i);
            let ghost before = words(pieces@);
            pieces.push(piece);
            assert(words(pieces@) =~= before.push(piece@));
            assert(next.last() == ' ');
            assert(split_spec(next) == split_spec(prefix).push(Seq::empty()));
            assert(line@.subrange(i + 1, i + 1) =~= Seq::<char>::empty());
            assert(words(pieces@).push(line@.subrange(i + 1, i + 1)) =~= split_spec(next));
            start = i + 1;
        } else {
            assert(line@.subrange(start as int, i + 1) =~= line@.subrange(start as int, i as int).push(
                line@[i as int],
            ));
            assert(words(pieces@).push(line@.subrange(start as int, i + 1)) =~= split_spec(next));
        }
        i += 1;
    }
    let piece = line.substring_char(start, n);
    pieces.push(piece);
    assert(line@.subrange(0, n as int) =~= line@);
    assert(words(pieces@) =~= split_spec(line@));
    pieces
}

/// Whether `c` is a decimal digit.
pub open spec fn is_digit(c: char) -> bool {
    '0' <= c && c <= '9'
}

/// Value of a string of decimal digits.
pub open spec fn digits_value(s: Seq<char>) -> nat
    decreases s.len(),
{
    if s.len() == 0 {
        0
    } else {
        digits_value(s.drop_last()) * 10 + (s.last() as u32 - '0' as u32) as nat
    }
}

/// Value of an unsigned decimal number: an optional `+` and at least one
/// digit, nothing else; `None` for any other text.
pub open spec fn decimal_value(s: Seq<char>) -> Option<nat> {
    let d = unsigned_digits(s);
    if d.len() > 0 && all_digits(d) {
        Some(digits_value(d))
    } else {
        None
    }
}

/// The text after an optional leading `+`.
pub open spec fn unsigned_digits(s: Seq<char>) -> Seq<char> {
    if s.len() > 0 && s[0] == '+' {
        s.drop_first()
    } else {
        s
    }
}

/// Whether every character is a decimal digit.
pub open spec fn all_digits(d: Seq<char>) -> bool {
    forall|i: int| 0 <= i < d.len() ==> is_digit(#[trigger] d[i])
}

/// Reads an unsigned decimal number no larger than `max`.
fn parse_number(t: &str, max: u32) -> (r: Option<u32>)
    requires
        max < 0x1000_0000,
    ensures
        r == match decimal_value(t@) {
            Some(v) => if v <= max { Some(v as u32) } else { None::<u32> },
            None => None::<u32>,
        },
{
    let n = t.unicode_len();
    let mut i: usize = 0;
    if n > 0 && t.get_char(0) == '+' {
        i = 1;
    }
    let first = i;
    let ghost d = t@.subrange(first as int, n as int);
    assert(d =~= unsigned_digits(t@));
    if first >= n {
        return None;
    }
    let mut acc: u32 = 0;
    while i < n
        invariant
            n == t@.len(),
            first < n,
            first <= i <= n,
            d == t@.subrange(first as int, n as int),
            d == unsigned_digits(t@),
            max < 0x1000_0000,
            forall|j: int| first <= j < i ==> is_digit(#[trigger] t@[j]),
            acc == if digits_value(t@.subrange(first as int, i as int)) <= max {
                digits_value(t@.subrange(first as int, i as int))
            } else {
                max as nat + 1
            },
        decreases n - i,
    {
        let c = t.get_char(i);
        if c < '0' || c > '9' {
            assert(!is_digit(d[i - first]));
            return None;
        }
        let ghost before = t@.subrange(first as int, i as int);
        let ghost after = t@.subrange(first as int, i + 1);
        assert(after.drop_last() =~= before);
        let digit = (c as u32) - ('0' as u32);
        if acc > max {
            assert(digits_value(after) > max) by (nonlinear_arith)
                requires
                    digits_value(after) == digits_value(before) * 10 + digit,
                    digits_value(before) > max,
            ;
        } else {
            acc = acc * 10 + digit;
            if acc > max {
                acc = max + 1;
            }
        }
        i += 1;
    }
    assert(t@.subrange(first as int, n as int) =~= d);
    if acc <= max {
        Some(acc)
    } else {
        None
    }
}

/// What one line of a symbol file declares.
pub enum Record {
    ZeroPage(u8, u8, Seq<char>),
    Label(u16, Seq<char>),
    Display(u16, Expr),
    Skip,
}

/// A decimal number no larger than `max`.
pub open spec fn number_upto(t: Seq<char>, max: nat) -> Option<nat> {
    match decimal_value(t) {
        Some(v) => if v <= max { Some(v) } else { None },
        None => None,
    }
}

/// The record a line declares; `Skip` for a malformed or unknown line.
pub open spec fn record_of(line: Seq<char>) -> Record {
    let t = split_spec(line);
    if t.len() == 0 {
        Record::Skip
    } else if t[0] == "z"@ {
        if t.len() != 4 {
            Record::Skip
        } else {
            match (number_upto(t[1], 255), number_upto(t[2], 255)) {
                (Some(a), Some(l)) => Record::ZeroPage(a as u8, l as u8, t[3]),
                _ => Record::Skip,
            }
        }
    } else if t[0] == "l"@ {
        if t.len() != 3 {
            Record::Skip
        } else {
            match number_upto(t[1], 65535) {
                Some(a) => Record::Label(a as u16, t[2]),
                None => Record::Skip,
            }
        }
    } else if t[0] == "p"@ {
        if t.len() < 2 {
            Record::Skip
        } else {
            match (number_upto(t[1], 65535), parse_spec(t.subrange(2, t.len() as int))) {
                (Some(a), Some((e, _))) => Record::Display(a as u16, e),
                _ => Record::Skip,
            }
        }
    } else {
        Record::Skip
    }
}

pub struct ZeroPageVariable {
    pub address: u8,
    pub length: u8,
    pub name: String,
}

pub struct SymbolTable {
    pub zero_page: Vec<ZeroPageVariable>,
    pub labels: BTreeMap<u16, String>,
    pub placeholders: BTreeMap<u16, Placeholder>,
}

/// Contents of a symbol table as plain values.
pub struct SymbolsView {
    pub zero_page: Seq<(u8, u8, Seq<char>)>,
    pub labels: Map<u16, Seq<char>>,
    pub placeholders: Map<u16, Expr>,
}

/// The table after one record: a variable is appended, a label or a
/// placeholder replaces any earlier one at its address.
pub open spec fn apply_record(v: SymbolsView, r: Record) -> SymbolsView {
    match r {
        Record::ZeroPage(a, l, n) => SymbolsView { zero_page: v.zero_page.push((a, l, n)), ..v },
        Record::Label(a, n) => SymbolsView { labels: v.labels.insert(a, n), ..v },
        Record::Display(a, e) => SymbolsView { placeholders: v.placeholders.insert(a, e), ..v },
        Record::Skip => v,
    }
}

/// The table that the given lines declare, read in order.
pub open spec fn load_spec(lines: Seq<Seq<char>>) -> SymbolsView
    decreases lines.len(),
{
    if lines.len() == 0 {
        SymbolsView { zero_page: Seq::empty(), labels: Map::empty(), placeholders: Map::empty() }
    } else {
        apply_record(load_spec(lines.drop_last()), record_of(lines.last()))
    }
}

/// The last label strictly before `addr`, if any.
pub open spec fn is_label_before(labels: Map<u16, String>, addr: u16, k: u16) -> bool {
    &&& k < addr
    &&& labels.contains_key(k)
    &&& forall|j: u16| k < j < addr ==> !labels.contains_key(j)
}

impl View for SymbolTable {
    type V = SymbolsView;

    open spec fn view(&self) -> SymbolsView {
        SymbolsView {
            zero_page: self.zero_page@.map_values(
                |v: ZeroPageVariable| (v.address, v.length, v.name@),
            ),
            labels: self.labels@.map_values(|s: String| s@),
            placeholders: self.placeholders@.map_values(|p: Placeholder| expr_of(p)),
        }
    }
}

impl SymbolTable {
    pub fn new() -> (r: Self)
        ensures
            r@ == load_spec(Seq::empty()),
    {
        let r = SymbolTable { zero_page: Vec::new(), labels: BTreeMap::new(), placeholders: BTreeMap::new() };
        assert(r@.zero_page =~= Seq::empty());
        assert(r@.labels =~= Map::empty());
        assert(r@.placeholders =~= Map::empty());
        r
    }

    /// Adds the record of one line; malformed lines change nothing.
    pub fn add_line(&mut self, line: &str)
        ensures
            final(self)@ == apply_record(old(self)@, record_of(line@)),
    {
        let tokens = split_words(line);
        proof {
            lemma_split_nonempty(line@);
        }
        let ghost t = split_spec(line@);
        assert(t[0] == tokens@[0]@);
        let kind = tokens[0];
        if same_word(kind, "z") {
            if tokens.len() != 4 {
                return;
            }
            assert(t[1] == tokens@[1]@ && t[2] == tokens@[2]@ && t[3] == tokens@[3]@);
            if let Some(addr) = parse_number(tokens[1], 255) {
                if let Some(length) = parse_number(tokens[2], 255) {
                    let ghost before = self@;
                    self.zero_page.push(
                        ZeroPageVariable {
                            address: addr as u8,
                            length: length as u8,
                            name: String::from_str(tokens[3]),
                        },
                    );
                    assert(self@.zero_page =~= before.zero_page.push(
                        (addr as u8, length as u8, t[3]),
                    ));
                }
            }
        } else if same_word(kind, "l") {
            if tokens.len() != 3 {
                return;
            }
            assert(t[1] == tokens@[1]@ && t[2] == tokens@[2]@);
            if let Some(addr) = parse_number(tokens[1], 65535) {
                let ghost before = self@;
                self.labels.insert(addr as u16, String::from_str(tokens[2]));
                assert(self@.labels =~= before.labels.insert(addr as u16, t[2]));
            }
        } else if same_word(kind, "p") {
            if tokens.len() < 2 {
                return;
            }
            assert(t[1] == tokens@[1]@);
            assert(t.subrange(2, t.len() as int) =~= words(tokens@).subrange(
                2,
                tokens@.len() as int,
            ));
            if let Some(addr) = parse_number(tokens[1], 65535) {
                if let Ok((placeholder, _)) = Placeholder::parse_from(tokens.as_slice(), 2) {
                    let ghost before = self@;
                    let ghost e = expr_of(placeholder);
                    self.placeholders.insert(addr as u16, placeholder);
                    assert(self@.placeholders =~= before.placeholders.insert(addr as u16, e));
                }
            }
        }
    }

    /// The table that the given lines declare, read in order.
    pub fn from_lines(lines: &Vec<String>) -> (r: Self)
        ensures
            r@ == load_spec(lines@.map_values(|s: String| s@)),
    {
        let ghost all = lines@.map_values(|s: String| s@);
        let mut table = SymbolTable::new();
        let mut i: usize = 0;
        while i < lines.len()
            invariant
                i <= lines@.len(),
                all == lines@.map_values(|s: String| s@),
                table@ == load_spec(all.subrange(0, i as int)),
            decreases lines@.len() - i,
        {
            assert(all.subrange(0, i + 1).drop_last() =~= all.subrange(0, i as int));
            table.add_line(lines[i].as_str());
            i += 1;
        }
        assert(all.subrange(0, i as int) =~= all);
        table
    }

    /// The address of the closest label strictly before `addr`.
    pub fn find_label_before(&self, addr: u16) -> (r: Option<u16>)
        ensures
            match r {
                Some(k) => is_label_before(self.labels@, addr, k),
                None => forall|j: u16| j < addr ==> !self.labels@.contains_key(j),
            },
    {
        let mut a = addr;
        while a > 0
            invariant
                a <= addr,
                forall|j: u16| a <= j < addr ==> !self.labels@.contains_key(j),
            decreases a,
        {
            a = a - 1;
            if self.labels.contains_key(&a) {
                return Some(a);
            }
        }
        None
    }
}

} // verus!
