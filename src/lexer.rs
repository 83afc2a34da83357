use vstd::prelude::*;
use crate::ops::{fits_i32, BinaryOp};

verus! {

/// The additive operators, which bind loosest.
#[derive(Debug, Clone, Copy, PartialEq, Eq)]
pub enum ArithmeticOperandHead {
    Plus,
    Minus,
}

/// The multiplicative operators, which bind tighter than the additive ones.
#[derive(Debug, Clone, Copy, PartialEq, Eq)]
pub enum ArithmeticOperandTail {
    Multiply,
    Divide,
    Mod,
}

impl ArithmeticOperandHead {
    pub open spec fn spec_op(self) -> BinaryOp {
        match self {
            ArithmeticOperandHead::Plus => BinaryOp::Plus,
            ArithmeticOperandHead::Minus => BinaryOp::Minus,
        }
    }

    pub fn op(self) -> (r: BinaryOp)
        ensures
            r == self.spec_op(),
    {
        match self {
            ArithmeticOperandHead::Plus => BinaryOp::Plus,
            ArithmeticOperandHead::Minus => BinaryOp::Minus,
        }
    }
}

impl ArithmeticOperandTail {
    pub open spec fn spec_op(self) -> BinaryOp {
        match self {
            ArithmeticOperandTail::Multiply => BinaryOp::Multiply,
            ArithmeticOperandTail::Divide => BinaryOp::Divide,
            ArithmeticOperandTail::Mod => BinaryOp::Mod,
        }
    }

    pub fn op(self) -> (r: BinaryOp)
        ensures
            r == self.spec_op(),
    {
        match self {
            ArithmeticOperandTail::Multiply => BinaryOp::Multiply,
            ArithmeticOperandTail::Divide => BinaryOp::Divide,
            ArithmeticOperandTail::Mod => BinaryOp::Mod,
        }
    }
}

/// A classified fragment of a line.
#[derive(Debug, Clone, PartialEq, Eq)]
pub enum Token {
    Value(i32),
    OperatorHead(ArithmeticOperandHead),
    OperatorTail(ArithmeticOperandTail),
    Variable(String),
    Assign,
}

/// The mathematical form of a [`Token`].
pub enum TokenView {
    Value(i32),
    OperatorHead(ArithmeticOperandHead),
    OperatorTail(ArithmeticOperandTail),
    Variable(Seq<char>),
    Assign,
}

impl View for Token {
    type V = TokenView;

    open spec fn view(&self) -> TokenView {
        match self {
            Token::Value(v) => TokenView::Value(*v),
            Token::OperatorHead(h) => TokenView::OperatorHead(*h),
            Token::OperatorTail(t) => TokenView::OperatorTail(*t),
            Token::Variable(n) => TokenView::Variable(n@),
            Token::Assign => TokenView::Assign,
        }
    }
}

pub open spec fn token_views(ts: Seq<Token>) -> Seq<TokenView> {
    ts.map_values(|t: Token| t@)
}

pub open spec fn string_views(v: Seq<String>) -> Seq<Seq<char>> {
    v.map_values(|s: String| s@)
}

/// The characters that always stand alone as a fragment.
pub open spec fn is_boundary(c: char) -> bool {
    c == '+' || c == '-' || c == '*' || c == '/' || c == '%' || c == '='
}

/// `done` with the word being read appended, unless that word is empty.
pub open spec fn flush(done: Seq<Seq<char>>, word: Seq<char>) -> Seq<Seq<char>> {
    if word.len() > 0 {
        done.push(word)
    } else {
        done
    }
}

/// The state of splitting after reading `s`: the finished fragments, and the
/// word read since the last space or operator.
pub open spec fn scan(s: Seq<char>) -> (Seq<Seq<char>>, Seq<char>)
    decreases s.len(),
{
    if s.len() == 0 {
        (Seq::empty(), Seq::empty())
    } else {
        let (done, word) = scan(s.drop_last());
        let c = s.last();
        if is_boundary(c) {
            (flush(done, word).push(seq![c]), Seq::empty())
        } else if c == ' ' {
            (flush(done, word), Seq::empty())
        } else {
            (done, word.push(c))
        }
    }
}

/// The fragments of a line: each operator or `=` alone, and each maximal run
/// of other characters that holds no space; spaces are dropped.
pub open spec fn fragments(s: Seq<char>) -> Seq<Seq<char>> {
    flush(scan(s).0, scan(s).1)
}

fn is_boundary_char(c: char) -> (r: bool)
    ensures
        r == is_boundary(c),
{
    c == '+' || c == '-' || c == '*' || c == '/' || c == '%' || c == '='
}

/// Splits a line into its fragments.
pub fn parse_line(line: &str) -> (r: Vec<String>)
    ensures
        string_views(r@) == fragments(line@),
{
    let n = line.unicode_len();
    let mut result: Vec<String> = Vec::new();
    let mut start: usize = 0;
    let mut i: usize = 0;
    while i < n
        invariant
            n == line@.len(),
            start <= i <= n,
            (string_views(result@), line@.subrange(start as int, i as int)) == scan(line@.take(i as int)),
        decreases n - i,
    {
        let c = line.get_char(i);
        proof {
            assert(line@.take(i + 1).drop_last() =~= line@.take(i as int));
            assert(line@.subrange(start as int, i + 1) =~= line@.subrange(start as int, i as int).push(c));
        }
        if is_boundary_char(c) || c == ' ' {
            if start < i {
                let word = line.substring_char(start, i).to_owned();
                result.push(word);
            }
            if c != ' ' {
                let op = line.substring_char(i, i + 1).to_owned();
                assert(op@ =~= seq![c]);
                result.push(op);
            }
            start = i + 1;
        }
        i += 1;
        assert(string_views(result@) =~= scan(line@.take(i as int)).0);
    }
    assert(line@.take(n as int) =~= line@);
    if start < n {
        let word = line.substring_char(start, n).to_owned();
        result.push(word);
    }
    assert(string_views(result@) =~= fragments(line@));
    result
}

pub open spec fn is_digit(c: char) -> bool {
    '0' <= c && c <= '9'
}

pub open spec fn all_digits(s: Seq<char>) -> bool {
    forall|i: int| 0 <= i < s.len() ==> is_digit(#[trigger] s[i])
}

pub open spec fn digit_value(c: char) -> int {
    (c as u32) as int - ('0' as u32) as int
}

/// The number that a run of decimal digits writes.
pub open spec fn digits_value(s: Seq<char>) -> int
    decreases s.len(),
{
    if s.len() == 0 {
        0
    } else {
        10 * digits_value(s.drop_last()) + digit_value(s.last())
    }
}

/// The integer that `s` writes: an optional sign, then one or more digits.
pub open spec fn signed_value(s: Seq<char>) -> Option<int> {
    if s.len() > 0 && (s[0] == '+' || s[0] == '-') {
        let d = s.drop_first();
        if d.len() > 0 && all_digits(d) {
            Some(if s[0] == '-' { -digits_value(d) } else { digits_value(d) })
        } else {
            None
        }
    } else if s.len() > 0 && all_digits(s) {
        Some(digits_value(s))
    } else {
        None
    }
}

/// The `i32` that `s` writes in decimal, if it writes one that fits.
pub open spec fn decimal_i32(s: Seq<char>) -> Option<i32> {
    match signed_value(s) {
        Some(v) => if fits_i32(v) {
            Some(v as i32)
        } else {
            None
        },
        None => None,
    }
}

proof fn lemma_digits_value_nonneg(s: Seq<char>)
    requires
        all_digits(s),
    ensures
        digits_value(s) >= 0,
    decreases s.len(),
{
    if s.len() > 0 {
        lemma_digits_value_nonneg(s.drop_last());
    }
}

/// Reading more digits never gives a smaller number.
proof fn lemma_digits_value_prefix(s: Seq<char>, k: int)
    requires
        all_digits(s),
        0 <= k <= s.len(),
    ensures
        digits_value(s.take(k)) <= digits_value(s),
    decreases s.len(),
{
    if k == s.len() {
        assert(s.take(k) =~= s);
    } else {
        assert(s.drop_last().take(k) =~= s.take(k));
        lemma_digits_value_prefix(s.drop_last(), k);
        lemma_digits_value_nonneg(s.drop_last());
    }
}

/// Reads a decimal `i32`: an optional `+` or `-`, then digits only.
pub fn parse_i32(s: &str) -> (r: Option<i32>)
    ensures
        r == decimal_i32(s@),
{
    let n = s.unicode_len();
    if n == 0 {
        return None;
    }
    let first = s.get_char(0);
    let negative = first == '-';
    let start: usize = if first == '+' || first == '-' { 1 } else { 0 };
    let ghost digits = s@.subrange(start as int, n as int);
    assert(start == 1 ==> digits =~= s@.drop_first());
    assert(start == 0 ==> digits =~= s@);
    if start == n {
        return None;
    }
    let mut value: u64 = 0;
    let mut i: usize = start;
    while i < n
        invariant
            n == s@.len(),
            n > 0,
            start == (if s@[0] == '+' || s@[0] == '-' { 1usize } else { 0usize }),
            start < n,
            start <= i <= n,
            digits == s@.subrange(start as int, n as int),
            all_digits(digits.take(i - start)),
            value == digits_value(digits.take(i - start)),
            value <= 2147483648,
        decreases n - i,
    {
        let c = s.get_char(i);
        if !('0' <= c && c <= '9') {
            assert(digits[i - start] == c);
            assert(!is_digit(digits[i - start]));
            assert(!all_digits(digits));
            assert(signed_value(s@) is None);
            return None;
        }
        let ghost prefix = digits.take(i + 1 - start);
        assert(prefix.drop_last() =~= digits.take(i - start));
        assert(prefix.last() == c);
        assert(all_digits(prefix));
        value = value * 10 + (c as u64 - '0' as u64);
        assert(value == digits_value(prefix));
        if value > 2147483648 {
            proof {
                if all_digits(digits) {
                    lemma_digits_value_prefix(digits, i + 1 - start);
                    assert(digits_value(digits) > 2147483648);
                    if start == 1 {
                        assert(s@.drop_first() =~= digits);
                        assert(signed_value(s@) == Some(
                            if s@[0] == '-' { -digits_value(digits) } else { digits_value(digits) },
                        ));
                    } else {
                        assert(s@ =~= digits);
                        assert(signed_value(s@) == Some(digits_value(digits)));
                    }
                } else {
                    assert(start == 1 ==> s@.drop_first() =~= digits);
                    assert(start == 0 ==> s@ =~= digits);
                    assert(signed_value(s@) is None);
                }
                assert(decimal_i32(s@) is None);
            }
            return None;
        }
        i += 1;
    }
    assert(digits.take(n - start) =~= digits);
    if negative {
        Some((0 - value as i64) as i32)
    } else if value > 2147483647 {
        None
    } else {
        Some(value as i32)
    }
}

/// The token that a fragment stands for: an operator or `=` by exact match,
/// else an integer literal, else an identifier.
pub open spec fn classify(s: Seq<char>) -> TokenView {
    if s == seq!['+'] {
        TokenView::OperatorHead(ArithmeticOperandHead::Plus)
    } else if s == seq!['-'] {
        TokenView::OperatorHead(ArithmeticOperandHead::Minus)
    } else if s == seq!['*'] {
        TokenView::OperatorTail(ArithmeticOperandTail::Multiply)
    } else if s == seq!['/'] {
        TokenView::OperatorTail(ArithmeticOperandTail::Divide)
    } else if s == seq!['%'] {
        TokenView::OperatorTail(ArithmeticOperandTail::Mod)
    } else if s == seq!['='] {
        TokenView::Assign
    } else {
        match decimal_i32(s) {
            Some(v) => TokenView::Value(v),
            None => TokenView::Variable(s),
        }
    }
}

/// Classifies one fragment; no fragment is refused.
pub fn convert_token(token: &str) -> (r: Token)
    ensures
        r@ == classify(token@),
{
    let n = token.unicode_len();
    if n == 1 {
        let c = token.get_char(0);
        assert(token@ =~= seq![c]);
        if c == '+' {
            return Token::OperatorHead(ArithmeticOperandHead::Plus);
        } else if c == '-' {
            return Token::OperatorHead(ArithmeticOperandHead::Minus);
        } else if c == '*' {
            return Token::OperatorTail(ArithmeticOperandTail::Multiply);
        } else if c == '/' {
            return Token::OperatorTail(ArithmeticOperandTail::Divide);
        } else if c == '%' {
            return Token::OperatorTail(ArithmeticOperandTail::Mod);
        } else if c == '=' {
            return Token::Assign;
        }
    }
    assert(n != 1 ==> (token@ != seq!['+'] && token@ != seq!['-'] && token@ != seq!['*']
        && token@ != seq!['/'] && token@ != seq!['%'] && token@ != seq!['=']));
    match parse_i32(token) {
        Some(v) => Token::Value(v),
        None => Token::Variable(token.to_owned()),
    }
}

/// Splits a line and classifies each fragment.
pub fn tokenize(line: &str) -> (r: Vec<Token>)
    ensures
        token_views(r@) == fragments(line@).map_values(|f: Seq<char>| classify(f)),
{
    let parts = parse_line(line);
    let mut tokens: Vec<Token> = Vec::new();
    let mut i: usize = 0;
    while i < parts.len()
        invariant
            i <= parts@.len(),
            tokens@.len() == i,
            forall|j: int| 0 <= j < i ==> #[trigger] tokens@[j]@ == classify(parts@[j]@),
        decreases parts.len() - i,
    {
        let t = convert_token(parts[i].as_str());
        tokens.push(t);
        i += 1;
    }
    assert(token_views(tokens@) =~= string_views(parts@).map_values(|f: Seq<char>| classify(f)));
    tokens
}

} // verus!
