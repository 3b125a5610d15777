//! Contract-call rules that do not need the chain: the network a call
//! uses, choosing a function overload by parameter count, the argument
//! count check, and the shape of decoded return values.

use vstd::prelude::*;
use crate::json::Json;
use crate::text::{chars_of, decimal, decimal_exec, owned, push_str, string_from};

verus! {

/// The network of a call: the one given, else the context's, else `base`.
pub fn network_choice(param_network: Option<&str>, context_network: Option<&str>) -> (r: String)
    ensures
        r@ == match param_network {
            Some(p) => p@,
            None => match context_network {
                Some(c) => c@,
                None => "base"@,
            },
        },
{
    match param_network {
        Some(p) => owned(p),
        None => match context_network {
            Some(c) => owned(c),
            None => owned("base"),
        },
    }
}

/// One parameter of a function overload: its name and type, as printed.
pub struct ParamDesc {
    pub name: String,
    pub kind: String,
}

/// `name: kind` for each parameter, joined with `, `.
pub open spec fn params_text(ps: Seq<ParamDesc>) -> Seq<char>
    decreases ps.len(),
{
    if ps.len() == 0 {
        Seq::empty()
    } else if ps.len() == 1 {
        ps[0].name@ + ": "@ + ps[0].kind@
    } else {
        params_text(ps.drop_last()) + ", "@ + ps.last().name@ + ": "@ + ps.last().kind@
    }
}

/// `name(params)` for each overload, joined with `, `.
pub open spec fn overloads_text(name: Seq<char>, os: Seq<Vec<ParamDesc>>) -> Seq<char>
    decreases os.len(),
{
    if os.len() == 0 {
        Seq::empty()
    } else if os.len() == 1 {
        name + "("@ + params_text(os[0]@) + ")"@
    } else {
        overloads_text(name, os.drop_last()) + ", "@ + name + "("@ + params_text(os.last()@) + ")"@
    }
}

fn params_text_exec(ps: &Vec<ParamDesc>) -> (r: Vec<char>)
    ensures
        r@ == params_text(ps@),
{
    let mut v: Vec<char> = Vec::new();
    let mut i: usize = 0;
    assert(ps@.take(0) =~= Seq::<ParamDesc>::empty());
    while i < ps.len()
        invariant
            i <= ps@.len(),
            v@ == params_text(ps@.take(i as int)),
        decreases ps@.len() - i,
    {
        let ghost t = ps@.take(i + 1);
        assert(t.drop_last() =~= ps@.take(i as int));
        assert(t.last() == ps@[i as int]);
        if i > 0 {
            push_str(&mut v, ", ");
        } else {
            assert(t =~= seq![ps@[0]]);
        }
        push_str(&mut v, ps[i].name.as_str());
        push_str(&mut v, ": ");
        push_str(&mut v, ps[i].kind.as_str());
        i = i + 1;
    }
    assert(ps@.take(i as int) =~= ps@);
    v
}

fn overloads_text_exec(name: &str, os: &Vec<Vec<ParamDesc>>) -> (r: Vec<char>)
    ensures
        r@ == overloads_text(name@, os@),
{
    let mut v: Vec<char> = Vec::new();
    let mut i: usize = 0;
    assert(os@.take(0) =~= Seq::<Vec<ParamDesc>>::empty());
    while i < os.len()
        invariant
            i <= os@.len(),
            v@ == overloads_text(name@, os@.take(i as int)),
        decreases os@.len() - i,
    {
        let ghost t = os@.take(i + 1);
        assert(t.drop_last() =~= os@.take(i as int));
        assert(t.last() == os@[i as int]);
        if i > 0 {
            push_str(&mut v, ", ");
        } else {
            assert(t =~= seq![os@[0]]);
        }
        push_str(&mut v, name);
        push_str(&mut v, "(");
        v.extend_from_slice(params_text_exec(&os[i]).as_slice());
        push_str(&mut v, ")");
        i = i + 1;
    }
    assert(os@.take(i as int) =~= os@);
    v
}

/// The message when a function name is not in the ABI.
pub open spec fn msg_function_not_found(name: Seq<char>) -> Seq<char> {
    "Function '"@ + name + "' not found in ABI"@
}

/// Picks the overload of a function with the given number of parameters:
/// the first such; the error lists the available overloads, or says the
/// function is missing (`overloads` is `None`).
pub fn select_overload(name: &str, param_count: usize, overloads: Option<&Vec<Vec<ParamDesc>>>) -> (r: Result<
    usize,
    String,
>)
    ensures
        match r {
            Ok(i) => overloads is Some && i < overloads->Some_0@.len() && overloads->Some_0@[i as int]@.len()
                == param_count && forall|j: int| 0 <= j < i ==> overloads->Some_0@[j]@.len() != param_count,
            Err(e) => match overloads {
                None => e@ == msg_function_not_found(name@),
                Some(os) => (forall|j: int| 0 <= j < os@.len() ==> os@[j]@.len() != param_count) && e@ == "No '"@
                    + name@ + "' overload with "@ + decimal(param_count as nat) + " params. Available: "@
                    + overloads_text(name@, os@),
            },
        },
{
    let os = match overloads {
        Some(os) => os,
        None => {
            let mut v = chars_of("Function '");
            push_str(&mut v, name);
            push_str(&mut v, "' not found in ABI");
            return Err(string_from(v.as_slice()));
        },
    };
    let mut i: usize = 0;
    while i < os.len()
        invariant
            overloads == Some(os),
            i <= os@.len(),
            forall|j: int| 0 <= j < i ==> os@[j]@.len() != param_count,
        decreases os@.len() - i,
    {
        if os[i].len() == param_count {
            return Ok(i);
        }
        i = i + 1;
    }
    let mut v = chars_of("No '");
    push_str(&mut v, name);
    push_str(&mut v, "' overload with ");
    v.extend_from_slice(decimal_exec(param_count as u64).as_slice());
    push_str(&mut v, " params. Available: ");
    v.extend_from_slice(overloads_text_exec(name, os).as_slice());
    Err(string_from(v.as_slice()))
}

/// Checks that a call passes as many arguments as the function takes.
pub fn check_param_count(function: &str, expected: usize, given: usize) -> (r: Result<(), String>)
    ensures
        match r {
            Ok(()) => expected == given,
            Err(e) => expected != given && e@ == "Function '"@ + function@ + "' expects "@ + decimal(expected as nat)
                + " parameters, got "@ + decimal(given as nat),
        },
{
    if expected == given {
        return Ok(());
    }
    let mut v = chars_of("Function '");
    push_str(&mut v, function);
    push_str(&mut v, "' expects ");
    v.extend_from_slice(decimal_exec(expected as u64).as_slice());
    push_str(&mut v, " parameters, got ");
    v.extend_from_slice(decimal_exec(given as u64).as_slice());
    Err(string_from(v.as_slice()))
}

/// The JSON of decoded return values: the value itself when there is
/// exactly one, else the array of them.
pub fn collapse_returns(values: Vec<Json>) -> (r: Json)
    ensures
        values@.len() == 1 ==> r == values@[0],
        values@.len() != 1 ==> r is Array && r->Array_0@ == values@,
{
    if values.len() == 1 {
        let mut values = values;
        values.remove(0)
    } else {
        Json::Array(values)
    }
}

} // verus!
