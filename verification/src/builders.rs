//! What the build of a Rust canister is made of before `cargo` runs: the
//! canisters it depends on, and the arguments of the build.

use crate::text::str_equal;
use vstd::prelude::*;
use vstd::string::StringExecFns;

verus! {

/// The target that canisters are compiled for.
pub const WASM_TARGET: &'static str = "wasm32-unknown-unknown";

/// The identifier of the first canister of `pool` with the name `name`, if
/// there is one.
pub open spec fn spec_first_with_name<T>(pool: Seq<(String, T)>, name: Seq<char>) -> Option<T>
    decreases pool.len(),
{
    if pool.len() == 0 {
        None
    } else if pool[0].0@ == name {
        Some(pool[0].1)
    } else {
        spec_first_with_name(pool.drop_first(), name)
    }
}

/// Looks up the identifier of the first canister of `pool` with the name
/// `name`.
pub fn get_first_canister_with_name<T: Copy>(pool: &Vec<(String, T)>, name: &str) -> (found:
    Option<T>)
    ensures
        found == spec_first_with_name(pool@, name@),
{
    let mut index: usize = 0;
    assert(pool@.skip(0) =~= pool@);
    while index < pool.len()
        invariant
            index <= pool@.len(),
            spec_first_with_name(pool@, name@) == spec_first_with_name(
                pool@.skip(index as int),
                name@,
            ),
        decreases pool@.len() - index,
    {
        proof {
            let rest = pool@.skip(index as int);
            assert(rest[0] == pool@[index as int]);
            assert(rest.drop_first() =~= pool@.skip(index + 1));
        }
        if str_equal(pool[index].0.as_str(), name) {
            return Some(pool[index].1);
        }
        index = index + 1;
    }
    assert(pool@.skip(index as int).len() == 0);
    None
}

/// Looks up the identifiers of the canisters that a canister depends on, by
/// their names and in the order of the names. A name that no canister of
/// `pool` has fails the lookup; the first such name is given back.
pub fn get_dependencies<T: Copy>(pool: &Vec<(String, T)>, names: &Vec<String>) -> (outcome:
    Result<Vec<T>, String>)
    ensures
        outcome is Ok <==> forall|at: int|
            0 <= at < names@.len() ==> spec_first_with_name(pool@, (#[trigger] names@[at])@)
                is Some,
        outcome matches Ok(ids) ==> ids@.len() == names@.len() && forall|at: int|
            0 <= at < names@.len() ==> Some(#[trigger] ids@[at]) == spec_first_with_name(
                pool@,
                names@[at]@,
            ),
        outcome matches Err(missing) ==> exists|at: int|
            {
                &&& 0 <= at < names@.len()
                &&& missing@ == (#[trigger] names@[at])@
                &&& spec_first_with_name(pool@, names@[at]@) is None
                &&& forall|before: int|
                    0 <= before < at ==> spec_first_with_name(
                        pool@,
                        (#[trigger] names@[before])@,
                    ) is Some
            },
{
    let mut ids: Vec<T> = Vec::new();
    let mut index: usize = 0;
    while index < names.len()
        invariant
            index <= names@.len(),
            ids@.len() == index,
            forall|at: int|
                0 <= at < index ==> Some(#[trigger] ids@[at]) == spec_first_with_name(
                    pool@,
                    names@[at]@,
                ),
        decreases names@.len() - index,
    {
        match get_first_canister_with_name(pool, names[index].as_str()) {
            Some(id) => {
                ids.push(id);
            },
            None => {
                proof {
                    assert(spec_first_with_name(pool@, names@[index as int]@) is None);
                    assert forall|before: int| 0 <= before < index implies spec_first_with_name(
                        pool@,
                        (#[trigger] names@[before])@,
                    ) is Some by {
                        assert(Some(ids@[before]) == spec_first_with_name(
                            pool@,
                            names@[before]@,
                        ));
                    }
                }
                return Err(names[index].clone());
            },
        }
        index = index + 1;
    }
    proof {
        assert forall|at: int| 0 <= at < names@.len() implies spec_first_with_name(
            pool@,
            (#[trigger] names@[at])@,
        ) is Some by {
            assert(Some(ids@[at]) == spec_first_with_name(pool@, names@[at]@));
        }
    }
    Ok(ids)
}

/// The arguments with which `cargo` builds the package `package` as a
/// canister.
pub open spec fn spec_cargo_build_arguments(package: Seq<char>) -> Seq<Seq<char>> {
    seq!["build"@, "--target"@, WASM_TARGET@, "--release"@, "-p"@, package, "--locked"@]
}

/// Makes the arguments with which `cargo` builds the package `package` as a
/// canister.
pub fn cargo_build_arguments(package: &str) -> (arguments: Vec<String>)
    ensures
        arguments@.len() == 7,
        forall|at: int|
            0 <= at < 7 ==> (#[trigger] arguments@[at])@ == spec_cargo_build_arguments(
                package@,
            )[at],
{
    let mut arguments: Vec<String> = Vec::new();
    arguments.push(String::from_str("build"));
    arguments.push(String::from_str("--target"));
    arguments.push(String::from_str(WASM_TARGET));
    arguments.push(String::from_str("--release"));
    arguments.push(String::from_str("-p"));
    arguments.push(String::from_str(package));
    arguments.push(String::from_str("--locked"));
    arguments
}

/// The line that tells which build is run.
pub open spec fn spec_cargo_build_line(package: Seq<char>) -> Seq<char> {
    "Executing: cargo build --target "@ + WASM_TARGET@ + " --release -p "@ + package
        + " --locked"@
}

/// Makes the line that tells which build is run.
pub fn cargo_build_line(package: &str) -> (line: String)
    ensures
        line@ == spec_cargo_build_line(package@),
{
    let mut line = String::from_str("Executing: cargo build --target ");
    line.append(WASM_TARGET);
    line.append(" --release -p ");
    line.append(package);
    line.append(" --locked");
    line
}

} // verus!
