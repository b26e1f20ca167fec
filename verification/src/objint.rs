//! The integer type: registers the class object that gives integer values
//! their behaviour through the shared dispatch protocol.

use vstd::prelude::*;

use crate::pyobject::{Executor, NativeFn, PyObject, PyObjectKind, PyObjectRef};
use vstd::string::StringExecFns;

verus! {

/// Builds the integer class: a class object named `int` whose dictionary
/// maps `__str__` to the native integer rendering function. The class and
/// the native function are appended to the arena; everything already there
/// stays as it was.
pub fn create_type(rt: &mut Executor, type_type: PyObjectRef) -> (r: PyObjectRef)
    requires
        old(rt).wf(),
        type_type < old(rt).objects@.len(),
    ensures
        final(rt).wf(),
        Executor::same_but_objects(*old(rt), *final(rt)),
        final(rt).objects@.len() == old(rt).objects@.len() + 2,
        forall|i: int|
            0 <= i < old(rt).objects@.len() ==> final(rt).objects@[i] == old(rt).objects@[i],
        r == old(rt).objects@.len() + 1,
        final(rt).objects@[r as int].typ == type_type,
        final(rt).objects@[r as int].kind matches PyObjectKind::Class { name, entries }
            && name@ == "int"@ && entries@.len() == 1 && entries@[0].0@ == "__str__"@
            && entries@[0].1 == old(rt).objects@.len(),
        final(rt).is_native(old(rt).objects@.len() as usize, NativeFn::IntStr),
{
    let f = rt.store(
        PyObject::new(PyObjectKind::NativeFunction { function: NativeFn::IntStr }, type_type),
    );
    let mut entries: Vec<(String, PyObjectRef)> = Vec::new();
    entries.push((String::from_str("__str__"), f));
    let typ = rt.store(
        PyObject::new(PyObjectKind::Class { name: String::from_str("int"), entries }, type_type),
    );
    typ
}


/// The character of one decimal digit.
pub open spec fn digit_to_char(d: int) -> char {
    if d == 0 {
        '0'
    } else if d == 1 {
        '1'
    } else if d == 2 {
        '2'
    } else if d == 3 {
        '3'
    } else if d == 4 {
        '4'
    } else if d == 5 {
        '5'
    } else if d == 6 {
        '6'
    } else if d == 7 {
        '7'
    } else if d == 8 {
        '8'
    } else {
        '9'
    }
}

/// The decimal digits of a non-negative number, most significant first.
pub open spec fn dec_digits(n: int) -> Seq<char>
    decreases n,
{
    if n < 10 {
        Seq::empty().push(digit_to_char(if n < 0 {
            0
        } else {
            n % 10
        }))
    } else {
        dec_digits(n / 10).push(digit_to_char(n % 10))
    }
}

/// The decimal rendering of an integer: a minus sign for a negative one,
/// then its magnitude's digits.
pub open spec fn spec_int_str(n: int) -> Seq<char> {
    if n < 0 {
        Seq::empty().push('-') + dec_digits(-n)
    } else {
        dec_digits(n)
    }
}

fn push_digit(s: &mut String, d: u64)
    requires
        d < 10,
    ensures
        final(s)@ == old(s)@.push(digit_to_char(d as int)),
{
    let ghost pre = s@;
    if d == 0 {
        s.append("0");
        proof {
            reveal_strlit("0");
            assert(s@ =~= pre.push('0'));
        }
    } else if d == 1 {
        s.append("1");
        proof {
            reveal_strlit("1");
            assert(s@ =~= pre.push('1'));
        }
    } else if d == 2 {
        s.append("2");
        proof {
            reveal_strlit("2");
            assert(s@ =~= pre.push('2'));
        }
    } else if d == 3 {
        s.append("3");
        proof {
            reveal_strlit("3");
            assert(s@ =~= pre.push('3'));
        }
    } else if d == 4 {
        s.append("4");
        proof {
            reveal_strlit("4");
            assert(s@ =~= pre.push('4'));
        }
    } else if d == 5 {
        s.append("5");
        proof {
            reveal_strlit("5");
            assert(s@ =~= pre.push('5'));
        }
    } else if d == 6 {
        s.append("6");
        proof {
            reveal_strlit("6");
            assert(s@ =~= pre.push('6'));
        }
    } else if d == 7 {
        s.append("7");
        proof {
            reveal_strlit("7");
            assert(s@ =~= pre.push('7'));
        }
    } else if d == 8 {
        s.append("8");
        proof {
            reveal_strlit("8");
            assert(s@ =~= pre.push('8'));
        }
    } else {
        s.append("9");
        proof {
            reveal_strlit("9");
            assert(s@ =~= pre.push('9'));
        }
    }
}

fn append_dec(s: &mut String, m: u64)
    ensures
        final(s)@ == old(s)@ + dec_digits(m as int),
    decreases m,
{
    let ghost pre = s@;
    if m < 10 {
        push_digit(s, m);
        proof {
            assert(s@ =~= pre + dec_digits(m as int));
        }
    } else {
        append_dec(s, m / 10);
        push_digit(s, m % 10);
        proof {
            assert(s@ =~= pre + dec_digits(m as int));
        }
    }
}

/// The decimal rendering of an integer, exactly `spec_int_str` of it.
pub fn int_to_string(n: i64) -> (s: String)
    ensures
        s@ == spec_int_str(n as int),
{
    let mut s = String::new();
    let ghost pre = s@;
    let m: u64;
    if n >= 0 {
        m = n as u64;
    } else {
        s.append("-");
        proof {
            reveal_strlit("-");
            assert(s@ =~= pre.push('-'));
        }
        if n == i64::MIN {
            m = 9223372036854775808u64;
        } else {
            m = (-n) as u64;
        }
    }
    proof {
        if n < 0 {
            assert(m as int == -(n as int));
        }
    }
    append_dec(&mut s, m);
    proof {
        if n >= 0 {
            assert(s@ =~= dec_digits(n as int));
        } else {
            assert(s@ =~= Seq::empty().push('-') + dec_digits(-(n as int)));
        }
    }
    s
}

} // verus!
