use vstd::prelude::*;

verus! {

// ---------------------------------------------------------------------------
// Character classes
// ---------------------------------------------------------------------------

/// ASCII decimal digit.
pub open spec fn is_digit_char(c: char) -> bool {
    '0' as int <= c as int && c as int <= '9' as int
}

/// ASCII letter, either case.
pub open spec fn is_letter_char(c: char) -> bool {
    ('a' as int <= c as int && c as int <= 'z' as int) || ('A' as int <= c as int && c as int
        <= 'Z' as int)
}

/// Character allowed in a token symbol or a destination address:
/// an ASCII letter, a digit, `-` or `_`.
pub open spec fn is_symbol_char(c: char) -> bool {
    is_digit_char(c) || is_letter_char(c) || c == '-' || c == '_'
}

/// A token symbol or an address is charset-valid when it is nonempty and
/// every character is a letter, a digit, `-` or `_`.
pub open spec fn charset_ok(s: Seq<char>) -> bool {
    s.len() > 0 && (forall|i: int| 0 <= i < s.len() ==> is_symbol_char(s[i]))
}

// ---------------------------------------------------------------------------
// The amount+token grammar: one or more digits, then one or more letters,
// then zero or more groups of `-` followed by one or more digits
// (so symbols such as `ERC-20` are accepted).
// ---------------------------------------------------------------------------

/// Length of the run of digits in `s` starting at `from`.
pub open spec fn digit_run_len(s: Seq<char>, from: int) -> nat
    decreases s.len() - from,
{
    if 0 <= from < s.len() && is_digit_char(s[from]) {
        1 + digit_run_len(s, from + 1)
    } else {
        0
    }
}

/// Length of the run of letters in `s` starting at `from`.
pub open spec fn letter_run_len(s: Seq<char>, from: int) -> nat
    decreases s.len() - from,
{
    if 0 <= from < s.len() && is_letter_char(s[from]) {
        1 + letter_run_len(s, from + 1)
    } else {
        0
    }
}

/// The suffix of `s` starting at `from` is a (possibly empty) sequence of
/// groups, each a `-` followed by one or more digits.
pub open spec fn dash_groups_ok(s: Seq<char>, from: int) -> bool
    decreases s.len() - from,
        via dash_groups_ok_decreases
{
    if from >= s.len() {
        true
    } else if 0 <= from && s[from] == '-' {
        digit_run_len(s, from + 1) >= 1 && dash_groups_ok(
            s,
            from + 1 + digit_run_len(s, from + 1),
        )
    } else {
        false
    }
}

#[via_fn]
proof fn dash_groups_ok_decreases(s: Seq<char>, from: int) {
    if 0 <= from < s.len() && s[from] == '-' {
        lemma_digit_run_len_char(s, from + 1);
    }
}

/// `s` matches the combined amount+token pattern: digits, letters, then
/// dash-digit groups.
pub open spec fn amount_token_shape(s: Seq<char>) -> bool {
    let d = digit_run_len(s, 0);
    let l = letter_run_len(s, d as int);
    d >= 1 && l >= 1 && dash_groups_ok(s, d + l as int)
}

/// The digit prefix of a combined amount+token string.
pub open spec fn amount_digits_of(s: Seq<char>) -> Seq<char> {
    s.take(digit_run_len(s, 0) as int)
}

/// The token part of a combined amount+token string: everything after the
/// digit prefix.
pub open spec fn token_of(s: Seq<char>) -> Seq<char> {
    s.skip(digit_run_len(s, 0) as int)
}

/// A digit run is in bounds, consists of digits, and is maximal.
pub proof fn lemma_digit_run_len_char(s: Seq<char>, from: int)
    requires
        0 <= from <= s.len(),
    ensures
        from + digit_run_len(s, from) <= s.len(),
        forall|j: int|
            from <= j < from + digit_run_len(s, from) ==> is_digit_char(s[j]),
        from + digit_run_len(s, from) < s.len() ==> !is_digit_char(
            s[from + digit_run_len(s, from)],
        ),
    decreases s.len() - from,
{
    if from < s.len() && is_digit_char(s[from]) {
        lemma_digit_run_len_char(s, from + 1);
    }
}

/// A run of digits ending at the first non-digit (or at the end of the
/// string) is exactly the digit run.
pub proof fn lemma_digit_run_len_exact(s: Seq<char>, from: int, end: int)
    requires
        0 <= from <= end <= s.len(),
        forall|j: int| from <= j < end ==> is_digit_char(s[j]),
        end < s.len() ==> !is_digit_char(s[end]),
    ensures
        digit_run_len(s, from) == end - from,
    decreases end - from,
{
    if from < end {
        lemma_digit_run_len_exact(s, from + 1, end);
    }
}

/// A letter run is in bounds, consists of letters, and is maximal.
pub proof fn lemma_letter_run_len_char(s: Seq<char>, from: int)
    requires
        0 <= from <= s.len(),
    ensures
        from + letter_run_len(s, from) <= s.len(),
        forall|j: int|
            from <= j < from + letter_run_len(s, from) ==> is_letter_char(s[j]),
        from + letter_run_len(s, from) < s.len() ==> !is_letter_char(
            s[from + letter_run_len(s, from)],
        ),
    decreases s.len() - from,
{
    if from < s.len() && is_letter_char(s[from]) {
        lemma_letter_run_len_char(s, from + 1);
    }
}

/// A run of letters ending at the first non-letter (or at the end of the
/// string) is exactly the letter run.
pub proof fn lemma_letter_run_len_exact(s: Seq<char>, from: int, end: int)
    requires
        0 <= from <= end <= s.len(),
        forall|j: int| from <= j < end ==> is_letter_char(s[j]),
        end < s.len() ==> !is_letter_char(s[end]),
    ensures
        letter_run_len(s, from) == end - from,
    decreases end - from,
{
    if from < end {
        lemma_letter_run_len_exact(s, from + 1, end);
    }
}

// ---------------------------------------------------------------------------
// Numeric value of the digit prefix
// ---------------------------------------------------------------------------

/// Numeric value of a decimal digit; zero for any other character.
pub open spec fn digit_val(c: char) -> nat {
    if is_digit_char(c) {
        (c as int - '0' as int) as nat
    } else {
        0
    }
}

/// Base-ten value of a sequence of decimal digits.
pub open spec fn digits_value(s: Seq<char>) -> nat
    decreases s.len(),
{
    if s.len() == 0 {
        0
    } else {
        digits_value(s.drop_last()) * 10 + digit_val(s.last())
    }
}

/// Extending a digit string on the right never decreases its value.
pub proof fn lemma_digits_value_monotone(s: Seq<char>, i: int, k: int)
    requires
        0 <= i <= k <= s.len(),
    ensures
        digits_value(s.take(i)) <= digits_value(s.take(k)),
    decreases k - i,
{
    if i < k {
        lemma_digits_value_monotone(s, i, k - 1);
        assert(s.take(k).drop_last() =~= s.take(k - 1));
        assert(digits_value(s.take(k)) == digits_value(s.take(k - 1)) * 10 + digit_val(
            s.take(k).last(),
        ));
    }
}

/// Converts the digit prefix `s[0..end]` to a `u64`, or reports that its
/// value does not fit.
fn digits_to_u64(s: &str, n: usize, end: usize) -> (r: Option<u64>)
    requires
        n == s@.len(),
        end <= n,
        forall|j: int| 0 <= j < end ==> is_digit_char(s@[j]),
    ensures
        match r {
            Some(v) => v == digits_value(s@.take(end as int)),
            None => digits_value(s@.take(end as int)) > u64::MAX,
        },
{
    let mut acc: u64 = 0;
    let mut i: usize = 0;
    while i < end
        invariant
            i <= end <= n,
            n == s@.len(),
            forall|j: int| 0 <= j < end ==> is_digit_char(s@[j]),
            acc == digits_value(s@.take(i as int)),
        decreases end - i,
    {
        let c = s.get_char(i);
        let d = (c as u32 - 48) as u64;
        proof {
            assert(s@.take(i + 1).drop_last() =~= s@.take(i as int));
            assert(s@.take(i + 1).last() == s@[i as int]);
        }
        let shifted = match acc.checked_mul(10) {
            Some(m) => m,
            None => {
                proof {
                    lemma_digits_value_monotone(s@, i + 1, end as int);
                }
                return None;
            },
        };
        let next = match shifted.checked_add(d) {
            Some(v) => v,
            None => {
                proof {
                    lemma_digits_value_monotone(s@, i + 1, end as int);
                }
                return None;
            },
        };
        acc = next;
        i += 1;
    }
    proof {
        assert(s@.take(end as int) =~= s@.take(i as int));
    }
    Some(acc)
}

fn is_digit_exec(c: char) -> (r: bool)
    ensures
        r == is_digit_char(c),
{
    let u = c as u32;
    48 <= u && u <= 57
}

fn is_letter_exec(c: char) -> (r: bool)
    ensures
        r == is_letter_char(c),
{
    let u = c as u32;
    (97 <= u && u <= 122) || (65 <= u && u <= 90)
}

fn is_symbol_exec(c: char) -> (r: bool)
    ensures
        r == is_symbol_char(c),
{
    is_digit_exec(c) || is_letter_exec(c) || c == '-' || c == '_'
}

/// First index at or after `from` where the digit run starting at `from`
/// ends.
fn digit_run_end(s: &str, n: usize, from: usize) -> (end: usize)
    requires
        n == s@.len(),
        from <= n,
    ensures
        from <= end <= n,
        end - from == digit_run_len(s@, from as int),
{
    let mut i = from;
    let mut stop = false;
    while i < n && !stop
        invariant
            from <= i <= n,
            n == s@.len(),
            forall|j: int| from <= j < i ==> is_digit_char(s@[j]),
            stop ==> i < n && !is_digit_char(s@[i as int]),
        decreases n - i + (if stop {
            0int
        } else {
            1int
        }),
    {
        let c = s.get_char(i);
        if is_digit_exec(c) {
            i += 1;
        } else {
            stop = true;
        }
    }
    proof {
        lemma_digit_run_len_exact(s@, from as int, i as int);
    }
    i
}

/// First index at or after `from` where the letter run starting at `from`
/// ends.
fn letter_run_end(s: &str, n: usize, from: usize) -> (end: usize)
    requires
        n == s@.len(),
        from <= n,
    ensures
        from <= end <= n,
        end - from == letter_run_len(s@, from as int),
{
    let mut i = from;
    let mut stop = false;
    while i < n && !stop
        invariant
            from <= i <= n,
            n == s@.len(),
            forall|j: int| from <= j < i ==> is_letter_char(s@[j]),
            stop ==> i < n && !is_letter_char(s@[i as int]),
        decreases n - i + (if stop {
            0int
        } else {
            1int
        }),
    {
        let c = s.get_char(i);
        if is_letter_exec(c) {
            i += 1;
        } else {
            stop = true;
        }
    }
    proof {
        lemma_letter_run_len_exact(s@, from as int, i as int);
    }
    i
}

/// Checks that the suffix of `s` starting at `from` is a sequence of
/// `-`-digits groups.
fn dash_groups_from(s: &str, n: usize, from: usize) -> (ok: bool)
    requires
        n == s@.len(),
        from <= n,
    ensures
        ok == dash_groups_ok(s@, from as int),
{
    let mut i = from;
    while i < n
        invariant
            from <= i <= n,
            n == s@.len(),
            dash_groups_ok(s@, from as int) == dash_groups_ok(s@, i as int),
        decreases n - i,
    {
        let c = s.get_char(i);
        if c != '-' {
            return false;
        }
        let dend = digit_run_end(s, n, i + 1);
        if dend == i + 1 {
            return false;
        }
        i = dend;
    }
    true
}

/// Checks that `s` is nonempty and made only of letters, digits, `-` and `_`.
pub fn charset_valid(s: &str) -> (r: bool)
    ensures
        r == charset_ok(s@),
{
    let n = s.unicode_len();
    if n == 0 {
        return false;
    }
    let mut i: usize = 0;
    while i < n
        invariant
            i <= n,
            n == s@.len(),
            forall|j: int| 0 <= j < i ==> is_symbol_char(s@[j]),
        decreases n - i,
    {
        let c = s.get_char(i);
        if !is_symbol_exec(c) {
            return false;
        }
        i += 1;
    }
    true
}

/// Every character in a dash-groups suffix is a digit or a `-`.
pub proof fn lemma_dash_groups_chars(s: Seq<char>, from: int)
    requires
        0 <= from <= s.len(),
        dash_groups_ok(s, from),
    ensures
        forall|j: int| from <= j < s.len() ==> is_digit_char(s[j]) || s[j] == '-',
    decreases s.len() - from,
{
    if from < s.len() {
        lemma_digit_run_len_char(s, from + 1);
        lemma_dash_groups_chars(s, from + 1 + digit_run_len(s, from + 1) as int);
    }
}

/// The token part of a well-shaped amount+token string is charset-valid.
pub proof fn lemma_token_charset(s: Seq<char>)
    requires
        amount_token_shape(s),
    ensures
        charset_ok(token_of(s)),
{
    let d = digit_run_len(s, 0) as int;
    let l = letter_run_len(s, d) as int;
    lemma_digit_run_len_char(s, 0);
    lemma_letter_run_len_char(s, d);
    lemma_dash_groups_chars(s, d + l);
    assert forall|j: int| 0 <= j < token_of(s).len() implies is_symbol_char(
        token_of(s)[j],
    ) by {
        assert(token_of(s)[j] == s[d + j]);
    }
}

// ---------------------------------------------------------------------------
// Errors and the validated request
// ---------------------------------------------------------------------------

/// Why validation rejected an input. Each variant names the field that
/// failed and the reason.
#[derive(Clone, Copy, Debug, PartialEq, Eq, Structural)]
pub enum ValidationError {
    /// The combined amount+token argument does not match the pattern
    /// digits, letters, then optional `-`-digits groups.
    MalformedAmountToken,
    /// The digit prefix of the amount+token argument does not fit in a
    /// 64-bit unsigned integer.
    AmountOutOfRange,
    /// The amount is zero; a zero-value transfer is rejected at
    /// construction so a request always carries a positive amount.
    ZeroAmount,
    /// The token symbol holds a character outside letters, digits, `-`
    /// and `_`, or is empty.
    InvalidTokenCharset,
    /// The destination address holds a character outside letters, digits,
    /// `-` and `_`, or is empty.
    InvalidAddress,
}

impl ValidationError {
    /// Human-readable description of the failure, for diagnostics.
    pub fn message(&self) -> String {
        match self {
            ValidationError::MalformedAmountToken => "malformed amount/token: expected digits followed by a token symbol".to_owned(),
            ValidationError::AmountOutOfRange => "amount is too large for a 64-bit unsigned integer".to_owned(),
            ValidationError::ZeroAmount => "amount must be greater than zero".to_owned(),
            ValidationError::InvalidTokenCharset => "invalid token symbol: only letters, digits, '-' and '_' are allowed".to_owned(),
            ValidationError::InvalidAddress => "invalid address format: only letters, digits, '-' and '_' are allowed".to_owned(),
        }
    }
}

/// Mathematical model of a validated transaction request.
pub ghost struct RequestModel {
    pub amount: nat,
    pub denomination: Seq<char>,
    pub destination: Seq<char>,
}

impl RequestModel {
    /// A well-formed request carries a positive amount that fits in a
    /// `u64` and charset-valid token and address strings.
    pub open spec fn wf(self) -> bool {
        0 < self.amount <= u64::MAX && charset_ok(self.denomination) && charset_ok(
            self.destination,
        )
    }
}

/// What splitting a combined amount+token argument must return: the value
/// of the digit prefix and the token remainder, or the specific error.
pub open spec fn spec_parse_amount_token(s: Seq<char>) -> Result<(nat, Seq<char>), ValidationError> {
    if !amount_token_shape(s) {
        Err(ValidationError::MalformedAmountToken)
    } else if digits_value(amount_digits_of(s)) > u64::MAX {
        Err(ValidationError::AmountOutOfRange)
    } else {
        Ok((digits_value(amount_digits_of(s)), token_of(s)))
    }
}

/// What building a request from separated fields must return: the checks
/// on amount, token charset and address charset, in that order.
pub open spec fn spec_request(
    amount: nat,
    denomination: Seq<char>,
    destination: Seq<char>,
) -> Result<RequestModel, ValidationError> {
    if amount == 0 {
        Err(ValidationError::ZeroAmount)
    } else if !charset_ok(denomination) {
        Err(ValidationError::InvalidTokenCharset)
    } else if !charset_ok(destination) {
        Err(ValidationError::InvalidAddress)
    } else {
        Ok(RequestModel { amount, denomination, destination })
    }
}

/// What validating the two command-line arguments must return: the
/// amount+token checks first, then the address check.
pub open spec fn spec_validate(amount_token: Seq<char>, destination: Seq<char>) -> Result<
    RequestModel,
    ValidationError,
> {
    match spec_parse_amount_token(amount_token) {
        Ok(p) => spec_request(p.0, p.1, destination),
        Err(e) => Err(e),
    }
}

/// A validated transfer: a positive amount of one token, bound for one
/// address. Never constructed from invalid components.
#[derive(Debug)]
pub struct TransactionRequest {
    amount: u64,
    denomination: String,
    destination: String,
}

impl View for TransactionRequest {
    type V = RequestModel;

    closed spec fn view(&self) -> RequestModel {
        RequestModel {
            amount: self.amount as nat,
            denomination: self.denomination@,
            destination: self.destination@,
        }
    }
}

impl TransactionRequest {
    /// Builds a request from already-separated fields, rejecting a zero
    /// amount and any charset violation in the token or the address.
    pub fn new(amount: u64, denomination: String, destination: String) -> (r: Result<
        TransactionRequest,
        ValidationError,
    >)
        ensures
            match r {
                Ok(req) => spec_request(amount as nat, denomination@, destination@)
                    == Ok::<RequestModel, ValidationError>(req@) && req@.wf(),
                Err(e) => spec_request(amount as nat, denomination@, destination@) == Err::<
                    RequestModel,
                    ValidationError,
                >(e),
            },
    {
        if amount == 0 {
            return Err(ValidationError::ZeroAmount);
        }
        if !charset_valid(denomination.as_str()) {
            return Err(ValidationError::InvalidTokenCharset);
        }
        if !charset_valid(destination.as_str()) {
            return Err(ValidationError::InvalidAddress);
        }
        Ok(TransactionRequest { amount, denomination, destination })
    }

    /// Runtime check of well-formedness, for unverified callers at the
    /// library boundary.
    pub fn well_formed(&self) -> (r: bool)
        ensures
            r == self@.wf(),
    {
        self.amount > 0 && charset_valid(self.denomination.as_str()) && charset_valid(
            self.destination.as_str(),
        )
    }

    /// The amount to transfer; always positive.
    pub fn amount(&self) -> (r: u64)
        ensures
            r == self@.amount,
    {
        self.amount
    }

    /// The token symbol being transferred.
    pub fn denomination(&self) -> (r: &String)
        ensures
            r@ == self@.denomination,
    {
        &self.denomination
    }

    /// The destination address.
    pub fn destination(&self) -> (r: &String)
        ensures
            r@ == self@.destination,
    {
        &self.destination
    }
}

/// Splits a combined amount+token argument such as `110uosmo` or
/// `1000ERC-20` into its numeric amount and its token symbol.
pub fn parse_amount_token(s: &str) -> (r: Result<(u64, String), ValidationError>)
    ensures
        match r {
            Ok(p) => spec_parse_amount_token(s@) == Ok::<(nat, Seq<char>), ValidationError>(
                (p.0 as nat, p.1@),
            ),
            Err(e) => spec_parse_amount_token(s@) == Err::<(nat, Seq<char>), ValidationError>(e),
        },
{
    let n = s.unicode_len();
    let d = digit_run_end(s, n, 0);
    if d == 0 {
        return Err(ValidationError::MalformedAmountToken);
    }
    let l = letter_run_end(s, n, d);
    if l == d {
        return Err(ValidationError::MalformedAmountToken);
    }
    if !dash_groups_from(s, n, l) {
        return Err(ValidationError::MalformedAmountToken);
    }
    proof {
        lemma_digit_run_len_char(s@, 0);
    }
    let amount = match digits_to_u64(s, n, d) {
        Some(v) => v,
        None => {
            return Err(ValidationError::AmountOutOfRange);
        },
    };
    let token = s.substring_char(d, n).to_owned();
    proof {
        assert(token_of(s@) =~= s@.subrange(d as int, n as int));
        assert(amount_digits_of(s@) =~= s@.take(d as int));
    }
    Ok((amount, token))
}

/// Validates the raw command-line arguments: the combined amount+token
/// string and the destination address. Returns a well-formed request or
/// the first failing check's error.
pub fn validate(amount_token: &str, destination: &str) -> (r: Result<
    TransactionRequest,
    ValidationError,
>)
    ensures
        match r {
            Ok(req) => spec_validate(amount_token@, destination@)
                == Ok::<RequestModel, ValidationError>(req@) && req@.wf(),
            Err(e) => spec_validate(amount_token@, destination@) == Err::<
                RequestModel,
                ValidationError,
            >(e),
        },
{
    match parse_amount_token(amount_token) {
        Ok(p) => {
            let (amount, token) = p;
            TransactionRequest::new(amount, token, destination.to_owned())
        },
        Err(e) => Err(e),
    }
}

// ---------------------------------------------------------------------------
// Laws of validation
// ---------------------------------------------------------------------------

/// A combined argument that matches the amount+token pattern, and whose
/// digit prefix fits in a `u64`, is accepted and decomposed into the value
/// of its digit prefix and its token remainder; the token is charset-valid
/// and digit prefix and token together reassemble the input. Any argument
/// that does not match the pattern is rejected as malformed.
pub proof fn lemma_amount_token_acceptance(s: Seq<char>)
    ensures
        amount_token_shape(s) && digits_value(amount_digits_of(s)) <= u64::MAX
            ==> spec_parse_amount_token(s) == Ok::<(nat, Seq<char>), ValidationError>(
            (digits_value(amount_digits_of(s)), token_of(s)),
        ) && amount_digits_of(s) + token_of(s) =~= s && charset_ok(token_of(s)),
        !amount_token_shape(s) ==> spec_parse_amount_token(s) == Err::<
            (nat, Seq<char>),
            ValidationError,
        >(ValidationError::MalformedAmountToken),
{
    if amount_token_shape(s) {
        lemma_digit_run_len_char(s, 0);
        lemma_token_charset(s);
    }
}

/// An address with any character outside letters, digits, `-` and `_`, or
/// an empty address, is never accepted, whatever the amount+token argument
/// held; and whenever the amount+token checks pass with a positive amount,
/// the reported error names the address.
pub proof fn lemma_invalid_address_rejected(amount_token: Seq<char>, destination: Seq<char>)
    requires
        !charset_ok(destination),
    ensures
        spec_validate(amount_token, destination) is Err,
        (match spec_parse_amount_token(amount_token) {
            Ok(p) => p.0 > 0 && charset_ok(p.1),
            Err(_) => false,
        }) ==> spec_validate(amount_token, destination) == Err::<RequestModel, ValidationError>(
            ValidationError::InvalidAddress,
        ),
{
}

/// Validation is deterministic: its outcome is a function of the two
/// argument strings alone. It is also side-effect-free; `validate` takes
/// its arguments by shared reference, returns a value, and is verified
/// never to panic, and nothing in this library performs I/O.
pub proof fn lemma_validation_deterministic(
    amount_token_a: Seq<char>,
    destination_a: Seq<char>,
    amount_token_b: Seq<char>,
    destination_b: Seq<char>,
)
    requires
        amount_token_a == amount_token_b,
        destination_a == destination_b,
    ensures
        spec_validate(amount_token_a, destination_a) == spec_validate(
            amount_token_b,
            destination_b,
        ),
{
}

/// Validation succeeds exactly when the combined argument matches the
/// amount+token pattern, its digit prefix has a positive value that fits
/// in a `u64`, and the address is charset-valid; the request it returns is
/// well-formed.
pub proof fn lemma_validate_success(amount_token: Seq<char>, destination: Seq<char>)
    ensures
        spec_validate(amount_token, destination) is Ok <==> amount_token_shape(amount_token) && 0
            < digits_value(amount_digits_of(amount_token)) <= u64::MAX && charset_ok(destination),
        spec_validate(amount_token, destination) matches Ok(m) ==> m.wf() && m.amount
            == digits_value(amount_digits_of(amount_token)) && m.denomination == token_of(
            amount_token,
        ) && m.destination == destination,
{
    if amount_token_shape(amount_token) {
        lemma_token_charset(amount_token);
    }
}

} // verus!
