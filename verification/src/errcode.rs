//! Error codes: standard errnos and the project's own codes.
use vstd::prelude::*;

verus! {

/// An error code of the project, as the C headers number them.
#[allow(non_camel_case_types)]
#[derive(Clone, Copy, PartialEq, Eq, Structural, Debug)]
pub struct bch_errcode(pub u32);

/// The error codes that this library raises or looks for. Their numbers come from the C headers.
#[derive(Clone, Copy, PartialEq, Eq, Structural, Debug)]
pub struct Errcodes {
    /// A position within a btree cannot be parsed.
    pub einval_parse_bpos: bch_errcode,
    /// A btree and a position cannot be parsed.
    pub einval_parse_bbpos: bch_errcode,
    /// The name of a btree cannot be parsed.
    pub einval_parse_btree_id: bch_errcode,
    /// The name of a key type cannot be parsed.
    pub einval_parse_bkey_type: bch_errcode,
    /// A transaction has to be restarted.
    pub transaction_restart: bch_errcode,
    /// A snapshot node is invalid.
    pub invalid_snapshot_node: bch_errcode,
}

/// The largest error code that a pointer or a return value can carry.
pub const MAX_ERRNO: u16 = 4095;

/// An error: a standard errno, or one of the project's own codes, which start above those. It
/// holds the positive code.
#[derive(Clone, Copy, PartialEq, Eq, Structural, Debug)]
pub struct BchError(i32);

impl BchError {
    /// The positive code.
    pub closed spec fn code(self) -> i32 {
        self.0
    }

    /// The error with the given code.
    pub fn from_raw(code: i32) -> (r: Self)
        ensures
            r.code() == code,
    {
        BchError(code)
    }

    /// The error with one of the project's own codes.
    pub fn from_errcode(code: bch_errcode) -> (r: Self)
        ensures
            r.code() == code.0 as i32,
    {
        BchError(#[verifier::truncate] (code.0 as i32))
    }

    /// The positive code.
    pub fn raw(&self) -> (r: i32)
        ensures
            r == self.code(),
    {
        self.0
    }

    /// Whether the error is in the class of `class`. `err_matches` looks the code up in the table
    /// of error classes; no error is in no class.
    pub fn matches<F: Fn(i32, i32) -> bool>(&self, class: bch_errcode, err_matches: F) -> (r: bool)
        requires
            forall|e: i32, c: i32| call_requires(err_matches, (e, c)),
        ensures
            self.code() == 0 ==> !r,
            self.code() != 0 ==> call_ensures(err_matches, (self.code(), class.0 as i32), r),
    {
        self.matches_errno(#[verifier::truncate] (class.0 as i32), err_matches)
    }

    /// Whether the error is in the class of the errno `class`.
    pub fn matches_errno<F: Fn(i32, i32) -> bool>(&self, class: i32, err_matches: F) -> (r: bool)
        requires
            forall|e: i32, c: i32| call_requires(err_matches, (e, c)),
        ensures
            self.code() == 0 ==> !r,
            self.code() != 0 ==> call_ensures(err_matches, (self.code(), class), r),
    {
        if self.0 != 0 {
            err_matches(self.0, class)
        } else {
            false
        }
    }

    /// The standard errno that the error stands for. `err_class` walks from a code to the errno at
    /// the root of its class; it takes and gives negative codes.
    pub fn errno<F: Fn(i32) -> i32>(&self, err_class: F) -> (r: i32)
        requires
            self.code() > i32::MIN,
            forall|e: i32| call_requires(err_class, (e,)),
            forall|e: i32, c: i32| call_ensures(err_class, (e,), c) ==> c > i32::MIN,
        ensures
            self.code() == 0 ==> r == 0,
            self.code() != 0 ==> exists|c: i32|
                #![trigger call_ensures(err_class, ((-self.code()) as i32,), c)]
                call_ensures(err_class, ((-self.code()) as i32,), c) && r == -c,
    {
        if self.0 == 0 {
            0
        } else {
            let negated: i32 = -self.0;
            let class: i32 = err_class(negated);
            -class
        }
    }
}

/// The error for one of the project's own codes.
pub fn bch_err_throw(code: bch_errcode) -> (r: BchError)
    ensures
        r.code() == code.0 as i32,
{
    BchError::from_errcode(code)
}

/// Whether a return value is an error: a small negative number.
pub open spec fn is_error(ret: int) -> bool {
    -4096 < ret < 0
}

/// Tells an error from a result: an error is a small negative number, the negated code.
pub fn ret_to_result(ret: i32) -> (r: Result<i32, BchError>)
    ensures
        match r {
            Ok(v) => !is_error(ret as int) && v == ret,
            Err(e) => is_error(ret as int) && e.code() == -ret,
        },
{
    if ret < 0 && ret > -4096 {
        Err(BchError(-ret))
    } else {
        Ok(ret)
    }
}

/// Tells an error from success, whatever the result is.
pub fn ret_to_result_void(ret: i32) -> (r: Result<(), BchError>)
    ensures
        match r {
            Ok(_) => !is_error(ret as int),
            Err(e) => is_error(ret as int) && e.code() == -ret,
        },
{
    match ret_to_result(ret) {
        Ok(_) => Ok(()),
        Err(e) => Err(e),
    }
}

/// What an operation comes to that fills in a value and returns whether it has succeeded.
pub fn filled_in<T>(ret: i32, value: T) -> (r: Result<T, BchError>)
    ensures
        match r {
            Ok(v) => !is_error(ret as int) && v == value,
            Err(e) => is_error(ret as int) && e.code() == -ret,
        },
{
    match ret_to_result_void(ret) {
        Ok(_) => Ok(value),
        Err(e) => Err(e),
    }
}

/// Whether an address is an error: one of the last of the address space.
pub open spec fn is_error_address(addr: usize) -> bool {
    addr > usize::MAX - MAX_ERRNO
}

/// Tells an error from the address of a mutable object: an error code is encoded as its distance
/// from the end of the address space.
pub fn errptr_to_result(p: usize) -> (r: Result<usize, BchError>)
    ensures
        match r {
            Ok(a) => !is_error_address(p) && a == p,
            Err(e) => is_error_address(p) && e.code() == usize::MAX + 1 - p && 1 <= e.code()
                <= MAX_ERRNO,
        },
{
    let distance: usize = usize::MAX - p;
    if distance < 4095 {
        let code: i32 = distance as i32 + 1;
        Err(BchError(code))
    } else {
        Ok(p)
    }
}

/// Tells an error from the address of a constant object.
pub fn errptr_to_result_c(p: usize) -> (r: Result<usize, BchError>)
    ensures
        match r {
            Ok(a) => !is_error_address(p) && a == p,
            Err(e) => is_error_address(p) && e.code() == usize::MAX + 1 - p && 1 <= e.code()
                <= MAX_ERRNO,
        },
{
    errptr_to_result(p)
}

/// The return value that reports an error.
pub open spec fn error_return(e: BchError) -> int {
    -(e.code() as int)
}

/// The address that reports an error.
pub open spec fn error_address(e: BchError) -> int {
    usize::MAX + 1 - e.code()
}

/// An error is its code: errors with one code are equal.
pub proof fn law_errors_with_one_code_are_equal(a: BchError, b: BchError)
    requires
        a.code() == b.code(),
    ensures
        a == b,
{
}

/// Each error that a return value can carry is told apart from success, in a return value as in an
/// address, and no such address is null.
pub proof fn law_errors_are_told_apart(e: BchError)
    requires
        1 <= e.code() <= MAX_ERRNO,
    ensures
        is_error(error_return(e)),
        0 < error_address(e) <= usize::MAX,
        is_error_address(error_address(e) as usize),
{
}

/// The errors among return values are the numbers from -4095 to -1, and among addresses the last 4095,
/// which stand for the same codes in the same order.
pub proof fn law_errors_are_the_last_numbers(ret: int, addr: usize)
    ensures
        is_error(ret) == (-4095 <= ret <= -1),
        is_error_address(addr) == (usize::MAX + 1 - addr <= 4095),
        is_error_address(addr) == is_error(addr - (usize::MAX + 1)),
{
}

/// An error is reported by the negated code, and by the address that lies as far before the end of the
/// address space.
pub proof fn law_errors_are_reported_by_their_code(e: BchError)
    ensures
        error_return(e) == 0 - e.code(),
        error_address(e) == usize::MAX + 1 + error_return(e),
{
}

} // verus!
