use partial::marker::{Patched, Unpatched};
use partial::partial::PartialBox;
use partial::patch::Patchable;

struct Example {
    value: i32,
}

impl Patched for Example {}

struct ExampleUnpatched;

impl Unpatched for ExampleUnpatched {}

impl Patchable for ExampleUnpatched {
    type Args = i32;
    type Patched = Example;

    fn patch(&self, args: Self::Args) -> Self::Patched {
        Example { value: args }
    }
}

#[test]
fn test_unpatched() {
    let example = ExampleUnpatched;
    let patched_example = example.patch(42);
    assert_eq!(patched_example.value, 42);
}

// Scenario: a named record with an immediate integer field and a deferred
// string field.
#[derive(Debug, PartialEq)]
struct Login {
    a: i64,
    b: String,
}

impl Patched for Login {}

struct LoginUnpatched {
    a: i64,
}

impl Unpatched for LoginUnpatched {}

impl Patchable for LoginUnpatched {
    type Args = (String,);
    type Patched = Login;

    fn patch(&self, args: Self::Args) -> Self::Patched {
        Login { a: self.a, b: args.0 }
    }
}

#[test]
fn named_record_deferred_string() {
    let reduced = LoginUnpatched { a: 10 };
    let complete = reduced.patch(("hi".to_string(),));
    assert_eq!(complete, Login { a: 10, b: "hi".to_string() });
}

#[test]
fn wrapper_transitions_to_patched() {
    let boxed = PartialBox::Unpatched(LoginUnpatched { a: 10 });
    let boxed = boxed.patch(("hi".to_string(),));
    match boxed {
        PartialBox::Patched(login) => {
            assert_eq!(login, Login { a: 10, b: "hi".to_string() });
        }
        PartialBox::Unpatched(_) => panic!("wrapper did not transition"),
    }
}

#[test]
fn wrapper_patch_is_idempotent() {
    let boxed = PartialBox::Unpatched(LoginUnpatched { a: 7 });
    let boxed = boxed.patch(("first".to_string(),));
    let boxed = boxed.patch(("second".to_string(),));
    match boxed {
        PartialBox::Patched(login) => {
            assert_eq!(login, Login { a: 7, b: "first".to_string() });
        }
        PartialBox::Unpatched(_) => panic!("wrapper did not transition"),
    }
}

// Scenario: a positional record whose first field is deferred; the supplied
// value lands in slot 0 and the reduced value keeps slot 1.
#[derive(Debug, PartialEq)]
struct Pair(String, i64);

impl Patched for Pair {}

struct PairUnpatched(i64);

impl Unpatched for PairUnpatched {}

impl Patchable for PairUnpatched {
    type Args = (String,);
    type Patched = Pair;

    fn patch(&self, args: Self::Args) -> Self::Patched {
        Pair(args.0, self.0)
    }
}

#[test]
fn positional_record_first_deferred() {
    let reduced = PairUnpatched(5);
    let complete = reduced.patch(("front".to_string(),));
    assert_eq!(complete, Pair("front".to_string(), 5));
}

// Scenario: no deferred fields; the contract is the empty tuple and the
// merge copies every field unchanged.
#[derive(Debug, PartialEq)]
struct Settled {
    x: i64,
    y: bool,
}

impl Patched for Settled {}

struct SettledUnpatched {
    x: i64,
    y: bool,
}

impl Unpatched for SettledUnpatched {}

impl Patchable for SettledUnpatched {
    type Args = ();
    type Patched = Settled;

    fn patch(&self, _args: Self::Args) -> Self::Patched {
        Settled { x: self.x, y: self.y }
    }
}

#[test]
fn zero_deferred_fields_copies_reduced() {
    let reduced = SettledUnpatched { x: -3, y: true };
    let complete = reduced.patch(());
    assert_eq!(complete, Settled { x: -3, y: true });
}

// Scenario: no immediate fields; the reduced type is unit-shaped and the
// complete value is built entirely from the completion data.
#[derive(Debug, PartialEq)]
struct Late {
    x: i64,
    y: String,
}

impl Patched for Late {}

struct LateUnpatched;

impl Unpatched for LateUnpatched {}

impl Patchable for LateUnpatched {
    type Args = (i64, String);
    type Patched = Late;

    fn patch(&self, args: Self::Args) -> Self::Patched {
        Late { x: args.0, y: args.1 }
    }
}

#[test]
fn zero_immediate_fields_builds_from_args() {
    let reduced = LateUnpatched;
    let complete = reduced.patch((11, "late".to_string()));
    assert_eq!(complete, Late { x: 11, y: "late".to_string() });
}
