//! The binding generator: turns a contract's interface description and
//! bytecode into a deployable artifact with one bound method per function.
use vstd::prelude::*;
use crate::abi::{AbiEntry, AbiParam, AbiType, EntryKind, Mutability, map_type, number_value, type_of_tag};
use crate::hexcode::{code_bytes, decode_code};
use crate::text::{decimal, digit_char, digit_value, push_char, push_decimal, push_text};

verus! {

/// How a bound method is sent to the provider.
#[derive(Clone, Copy, Debug, PartialEq, Eq, Structural)]
pub enum Dispatch {
    /// A read-only call whose state changes are not committed.
    Static,
    /// A transaction whose state changes are committed.
    Send,
}

/// One callable method of a contract's bindings.
#[derive(Debug)]
pub struct BoundMethod {
    /// The generated method identifier, unique within the artifact.
    pub ident: String,
    /// The canonical `name(type,...)` signature, from which the selector comes.
    pub signature: String,
    pub dispatch: Dispatch,
    pub inputs: Vec<AbiType>,
    /// The decoded result, if the function declares one.
    pub output: Option<AbiType>,
}

/// Bytecode ready for deployment, with the method table of its bindings.
#[derive(Debug)]
pub struct Deployable {
    pub code: Vec<u8>,
    pub methods: Vec<BoundMethod>,
}

/// Why bindings could not be generated.
#[derive(Debug, PartialEq, Eq)]
pub enum GenError {
    /// A function's mutability has no dispatch (the function's name).
    UnsupportedMutability(String),
    /// A function declares more than one output (the function's name).
    MultipleOutputs(String),
    /// A parameter's type tag is not supported (the tag).
    UnsupportedType(String),
    /// Two methods would get the same identifier (the identifier).
    NameClash(String),
    /// The bytecode is not hex text.
    InvalidBytecode,
}

/// The function entries of an interface, in declaration order.
pub open spec fn functions_of(abi: Seq<AbiEntry>) -> Seq<AbiEntry>
    decreases abi.len(),
{
    if abi.len() == 0 {
        Seq::empty()
    } else if abi.last().entry_type == EntryKind::Function {
        functions_of(abi.drop_last()).push(abi.last())
    } else {
        functions_of(abi.drop_last())
    }
}

pub open spec fn names_of(fns: Seq<AbiEntry>) -> Seq<Seq<char>> {
    Seq::new(fns.len(), |i: int| fns[i].name@)
}

/// How many of the first `upto` names equal `n`.
pub open spec fn count_before(names: Seq<Seq<char>>, n: Seq<char>, upto: int) -> nat
    decreases upto,
{
    if upto <= 0 {
        0
    } else {
        count_before(names, n, upto - 1) + if names[upto - 1] == n { 1nat } else { 0nat }
    }
}

/// Whether no later name equals the name at `i`.
pub open spec fn is_last_of_name(names: Seq<Seq<char>>, i: int) -> bool {
    forall|j: int| i < j < names.len() ==> names[j] != names[i]
}

/// The generated identifier of the function at `i`: the last declared function
/// of a name keeps it bare; each earlier one gets the number of earlier
/// functions of that name as a suffix.
pub open spec fn ident_of(names: Seq<Seq<char>>, i: int) -> Seq<char> {
    if is_last_of_name(names, i) {
        names[i]
    } else {
        names[i] + decimal(count_before(names, names[i], i))
    }
}

pub open spec fn all_distinct(ids: Seq<Seq<char>>) -> bool {
    forall|i: int, j: int| 0 <= i < j < ids.len() ==> ids[i] != ids[j]
}

/// The type tags of `ps` joined by commas.
pub open spec fn joined_tags(ps: Seq<AbiParam>) -> Seq<char>
    decreases ps.len(),
{
    if ps.len() == 0 {
        Seq::empty()
    } else if ps.len() == 1 {
        ps[0].type_tag@
    } else {
        joined_tags(ps.drop_last()) + seq![','] + ps.last().type_tag@
    }
}

/// The canonical signature `name(type,...)` of an entry.
pub open spec fn signature_of(e: AbiEntry) -> Seq<char> {
    e.name@ + seq!['('] + joined_tags(e.inputs@) + seq![')']
}

/// The value kinds of the parameters, or the first unsupported tag.
pub open spec fn param_types(ps: Seq<AbiParam>) -> Result<Seq<AbiType>, GenError>
    decreases ps.len(),
{
    if ps.len() == 0 {
        Ok(Seq::empty())
    } else {
        match param_types(ps.drop_last()) {
            Err(e) => Err(e),
            Ok(ts) => match type_of_tag(ps.last().type_tag@) {
                Some(t) => Ok(ts.push(t)),
                None => Err(GenError::UnsupportedType(ps.last().type_tag)),
            },
        }
    }
}

pub open spec fn dispatch_of(m: Mutability) -> Option<Dispatch> {
    match m {
        Mutability::View => Some(Dispatch::Static),
        Mutability::NonPayable => Some(Dispatch::Send),
        Mutability::Payable => Some(Dispatch::Send),
        Mutability::Pure => None,
    }
}

/// The binding of one function entry (dispatch, input kinds, output kind), or
/// why it has none. Checked in this order: mutability, number of outputs,
/// input types, output type.
pub open spec fn binding_of(e: AbiEntry) -> Result<(Dispatch, Seq<AbiType>, Option<AbiType>), GenError> {
    match dispatch_of(e.state_mutability) {
        None => Err(GenError::UnsupportedMutability(e.name)),
        Some(d) => if e.outputs@.len() > 1 {
            Err(GenError::MultipleOutputs(e.name))
        } else {
            match param_types(e.inputs@) {
                Err(err) => Err(err),
                Ok(ins) => if e.outputs@.len() == 0 {
                    Ok((d, ins, None))
                } else {
                    match type_of_tag(e.outputs@[0].type_tag@) {
                        Some(t) => Ok((d, ins, Some(t))),
                        None => Err(GenError::UnsupportedType(e.outputs@[0].type_tag)),
                    }
                },
            }
        },
    }
}

/// The first entry (in declaration order) that has no binding, if any.
pub open spec fn first_gen_error(fns: Seq<AbiEntry>) -> Option<GenError>
    decreases fns.len(),
{
    if fns.len() == 0 {
        None
    } else {
        match first_gen_error(fns.drop_last()) {
            Some(e) => Some(e),
            None => match binding_of(fns.last()) {
                Err(e) => Some(e),
                Ok(_) => None,
            },
        }
    }
}

/// Whether `m` is the binding of function entry `e` under identifier `id`.
pub open spec fn binds(m: BoundMethod, e: AbiEntry, id: Seq<char>) -> bool {
    &&& m.ident@ == id
    &&& m.signature@ == signature_of(e)
    &&& binding_of(e) == Ok::<_, GenError>((m.dispatch, m.inputs@, m.output))
}

/// The function entries of `abi`, in declaration order.
pub fn functions(abi: &Vec<AbiEntry>) -> (r: Vec<&AbiEntry>)
    ensures
        r@.len() == functions_of(abi@).len(),
        forall|i: int| 0 <= i < r@.len() ==> *r@[i] == functions_of(abi@)[i],
{
    let mut out: Vec<&AbiEntry> = Vec::new();
    let mut i: usize = 0;
    while i < abi.len()
        invariant
            i <= abi@.len(),
            out@.len() == functions_of(abi@.subrange(0, i as int)).len(),
            forall|k: int| 0 <= k < out@.len() ==> *out@[k] == functions_of(abi@.subrange(0, i as int))[k],
        decreases abi@.len() - i,
    {
        assert(abi@.subrange(0, i + 1).drop_last() =~= abi@.subrange(0, i as int));
        if abi[i].entry_type == EntryKind::Function {
            out.push(&abi[i]);
        }
        i = i + 1;
    }
    assert(abi@.subrange(0, i as int) =~= abi@);
    out
}

pub open spec fn deref_all(fns: Seq<&AbiEntry>) -> Seq<AbiEntry> {
    Seq::new(fns.len(), |i: int| *fns[i])
}

/// The generated identifiers of the functions `fns`, in order.
pub fn method_idents(fns: &Vec<&AbiEntry>) -> (r: Vec<String>)
    ensures
        r@.len() == fns@.len(),
        forall|i: int| 0 <= i < r@.len() ==> r@[i]@ == ident_of(names_of(deref_all(fns@)), i),
{
    let ghost names = names_of(deref_all(fns@));
    let mut out: Vec<String> = Vec::new();
    let mut i: usize = 0;
    while i < fns.len()
        invariant
            names == names_of(deref_all(fns@)),
            i <= fns@.len(),
            out@.len() == i,
            forall|k: int| 0 <= k < i ==> out@[k]@ == ident_of(names, k),
        decreases fns@.len() - i,
    {
        let name = &fns[i].name;
        let mut earlier: usize = 0;
        let mut j: usize = 0;
        while j < i
            invariant
                names == names_of(deref_all(fns@)),
                i < fns@.len(),
                *name == fns@[i as int].name,
                j <= i,
                earlier as nat == count_before(names, names[i as int], j as int),
                earlier <= j,
            decreases i - j,
        {
            if fns[j].name == *name {
                earlier = earlier + 1;
            }
            j = j + 1;
        }
        let mut last = true;
        let mut j: usize = i + 1;
        while j < fns.len()
            invariant
                names == names_of(deref_all(fns@)),
                i < fns@.len(),
                *name == fns@[i as int].name,
                i < j <= fns@.len(),
                last == (forall|k: int| i < k < j ==> names[k] != names[i as int]),
            decreases fns@.len() - j,
        {
            assert(names[j as int] == fns@[j as int].name@ && names[i as int] == fns@[i as int].name@);
            if fns[j].name == *name {
                last = false;
            }
            j = j + 1;
        }
        let mut id = name.clone();
        if !last {
            push_decimal(&mut id, earlier);
        }
        out.push(id);
        i = i + 1;
    }
    out
}

/// The first identifier that occurs twice in `ids`, if any.
pub fn find_clash(ids: &Vec<String>) -> (r: Option<usize>)
    ensures
        match r {
            Some(k) => k < ids@.len() && exists|j: int| 0 <= j < ids@.len() && j != k && ids@[j]@ == ids@[k as int]@,
            None => forall|a: int, b: int| 0 <= a < b < ids@.len() ==> ids@[a]@ != ids@[b]@,
        },
{
    let mut a: usize = 0;
    while a < ids.len()
        invariant
            a <= ids@.len(),
            forall|x: int, y: int| 0 <= x < a && x < y < ids@.len() ==> ids@[x]@ != ids@[y]@,
        decreases ids@.len() - a,
    {
        let mut b: usize = a + 1;
        while b < ids.len()
            invariant
                a < ids@.len(),
                a < b <= ids@.len(),
                forall|x: int, y: int| 0 <= x < a && x < y < ids@.len() ==> ids@[x]@ != ids@[y]@,
                forall|y: int| a < y < b ==> ids@[a as int]@ != ids@[y]@,
            decreases ids@.len() - b,
        {
            if ids[a] == ids[b] {
                return Some(a);
            }
            b = b + 1;
        }
        a = a + 1;
    }
    None
}


/// The value kinds of the parameters `ps`, or the first unsupported tag.
pub fn param_kinds(ps: &Vec<AbiParam>) -> (r: Result<Vec<AbiType>, GenError>)
    ensures
        match r {
            Ok(ts) => param_types(ps@) == Ok::<_, GenError>(ts@),
            Err(e) => param_types(ps@) == Err::<Seq<AbiType>, _>(e),
        },
{
    let mut out: Vec<AbiType> = Vec::new();
    let mut i: usize = 0;
    while i < ps.len()
        invariant
            i <= ps@.len(),
            param_types(ps@.subrange(0, i as int)) == Ok::<_, GenError>(out@),
        decreases ps@.len() - i,
    {
        assert(ps@.subrange(0, i + 1).drop_last() =~= ps@.subrange(0, i as int));
        match map_type(ps[i].type_tag.as_str()) {
            Some(t) => out.push(t),
            None => {
                proof {
                    lemma_param_error_persists(ps@, i as int + 1, ps@.len() as int);
                    assert(ps@.subrange(0, ps@.len() as int) =~= ps@);
                }
                return Err(GenError::UnsupportedType(ps[i].type_tag.clone()));
            },
        }
        i = i + 1;
    }
    assert(ps@.subrange(0, i as int) =~= ps@);
    Ok(out)
}

proof fn lemma_param_error_persists(ps: Seq<AbiParam>, i: int, j: int)
    requires
        0 <= i <= j <= ps.len(),
        param_types(ps.subrange(0, i)) is Err,
    ensures
        param_types(ps.subrange(0, j)) == param_types(ps.subrange(0, i)),
    decreases j - i,
{
    if j > i {
        lemma_param_error_persists(ps, i, j - 1);
        assert(ps.subrange(0, j).drop_last() =~= ps.subrange(0, j - 1));
    }
}

proof fn lemma_gen_error_persists(fns: Seq<AbiEntry>, i: int, j: int)
    requires
        0 <= i <= j <= fns.len(),
        first_gen_error(fns.subrange(0, i)) is Some,
    ensures
        first_gen_error(fns.subrange(0, j)) == first_gen_error(fns.subrange(0, i)),
    decreases j - i,
{
    if j > i {
        lemma_gen_error_persists(fns, i, j - 1);
        assert(fns.subrange(0, j).drop_last() =~= fns.subrange(0, j - 1));
    }
}

/// The binding of one function entry: its dispatch, input kinds and output
/// kind, or why it has none.
pub fn bind_entry(e: &AbiEntry) -> (r: Result<(Dispatch, Vec<AbiType>, Option<AbiType>), GenError>)
    ensures
        match r {
            Ok((d, ins, out)) => binding_of(*e) == Ok::<_, GenError>((d, ins@, out)),
            Err(x) => binding_of(*e) == Err::<(Dispatch, Seq<AbiType>, Option<AbiType>), _>(x),
        },
{
    let d = match e.state_mutability {
        Mutability::View => Dispatch::Static,
        Mutability::NonPayable => Dispatch::Send,
        Mutability::Payable => Dispatch::Send,
        Mutability::Pure => {
            return Err(GenError::UnsupportedMutability(e.name.clone()));
        },
    };
    if e.outputs.len() > 1 {
        return Err(GenError::MultipleOutputs(e.name.clone()));
    }
    let ins = match param_kinds(&e.inputs) {
        Ok(ts) => ts,
        Err(x) => {
            return Err(x);
        },
    };
    if e.outputs.len() == 0 {
        Ok((d, ins, None))
    } else {
        match map_type(e.outputs[0].type_tag.as_str()) {
            Some(t) => Ok((d, ins, Some(t))),
            None => Err(GenError::UnsupportedType(e.outputs[0].type_tag.clone())),
        }
    }
}

/// The canonical signature `name(type,...)` of an entry.
pub fn signature(e: &AbiEntry) -> (r: String)
    ensures
        r@ == signature_of(*e),
{
    let mut s = e.name.clone();
    push_char(&mut s, '(');
    let ps = &e.inputs;
    let mut i: usize = 0;
    while i < ps.len()
        invariant
            *ps == e.inputs,
            i <= ps@.len(),
            s@ == e.name@ + seq!['('] + joined_tags(ps@.subrange(0, i as int)),
        decreases ps@.len() - i,
    {
        assert(ps@.subrange(0, i + 1).drop_last() =~= ps@.subrange(0, i as int));
        if i > 0 {
            push_char(&mut s, ',');
        }
        push_text(&mut s, ps[i].type_tag.as_str());
        proof {
            if i == 0 {
                assert(joined_tags(ps@.subrange(0, 0)) =~= Seq::<char>::empty());
            }
        }
        assert(s@ =~= e.name@ + seq!['('] + joined_tags(ps@.subrange(0, i + 1)));
        i = i + 1;
    }
    assert(ps@.subrange(0, i as int) =~= ps@);
    push_char(&mut s, ')');
    s
}

/// Generates the bindings of a contract from its interface description and
/// bytecode text: one method per function entry, in declaration order.
pub fn generate(abi: &Vec<AbiEntry>, bytecode: &str) -> (r: Result<Deployable, GenError>)
    ensures
        ({
            let fns = functions_of(abi@);
            let names = names_of(fns);
            match first_gen_error(fns) {
                Some(e) => r == Err::<Deployable, _>(e),
                None => if !all_distinct(Seq::new(fns.len(), |i: int| ident_of(names, i))) {
                    r matches Err(GenError::NameClash(x)) && exists|i: int, j: int|
                        0 <= i < j < fns.len() && ident_of(names, i) == x@ && ident_of(names, j) == x@
                } else {
                    match code_bytes(bytecode@) {
                        None => r == Err::<Deployable, _>(GenError::InvalidBytecode),
                        Some(c) => r matches Ok(d) && d.code@ == c && d.methods@.len() == fns.len()
                            && forall|i: int| 0 <= i < fns.len()
                                ==> binds(#[trigger] d.methods@[i], fns[i], ident_of(names, i)),
                    }
                },
            }
        }),
{
    let fns = functions(abi);
    let ghost fs = functions_of(abi@);
    assert(deref_all(fns@) =~= fs);
    let mut i: usize = 0;
    while i < fns.len()
        invariant
            fs == functions_of(abi@),
            deref_all(fns@) == fs,
            i <= fns@.len(),
            first_gen_error(fs.subrange(0, i as int)) is None,
            forall|k: int| 0 <= k < i ==> binding_of(#[trigger] fs[k]) is Ok,
        decreases fns@.len() - i,
    {
        assert(fs.subrange(0, i + 1).drop_last() =~= fs.subrange(0, i as int));
        assert(fs.subrange(0, i + 1).last() == fs[i as int]);
        assert(fs[i as int] == *fns@[i as int]);
        match bind_entry(fns[i]) {
            Ok(_) => {},
            Err(x) => {
                proof {
                    assert(first_gen_error(fs.subrange(0, i + 1)) == Some(x));
                    lemma_gen_error_persists(fs, i + 1, fs.len() as int);
                    assert(fs.subrange(0, fs.len() as int) =~= fs);
                    assert(first_gen_error(fs) == Some(x));
                }
                return Err(x);
            },
        }
        i = i + 1;
    }
    assert(fs.subrange(0, i as int) =~= fs);
    let idents = method_idents(&fns);
    let ghost ids = Seq::new(fs.len(), |k: int| ident_of(names_of(fs), k));
    match find_clash(&idents) {
        Some(k) => {
            let x = idents[k].clone();
            proof {
                let j = choose|j: int| 0 <= j < idents@.len() && j != k && idents@[j]@ == idents@[k as int]@;
                assert(ids[j] == idents@[j]@ && ids[k as int] == idents@[k as int]@);
                if j < k {
                    assert(0 <= j < k < fs.len() && ids[j] == ids[k as int]);
                } else {
                    assert(0 <= k < j < fs.len() && ids[k as int] == ids[j]);
                }
                assert(!all_distinct(ids));
            }
            return Err(GenError::NameClash(x));
        },
        None => {
            assert(all_distinct(ids));
        },
    }
    let code = match decode_code(bytecode) {
        Some(c) => c,
        None => {
            return Err(GenError::InvalidBytecode);
        },
    };
    let mut methods: Vec<BoundMethod> = Vec::new();
    let mut i: usize = 0;
    while i < fns.len()
        invariant
            deref_all(fns@) == fs,
            i <= fns@.len(),
            idents@.len() == fns@.len(),
            forall|k: int| 0 <= k < fns@.len() ==> idents@[k]@ == ident_of(names_of(fs), k),
            forall|k: int| 0 <= k < fs.len() ==> binding_of(#[trigger] fs[k]) is Ok,
            methods@.len() == i,
            forall|k: int| 0 <= k < i ==> binds(#[trigger] methods@[k], fs[k], ident_of(names_of(fs), k)),
        decreases fns@.len() - i,
    {
        assert(fs[i as int] == *fns@[i as int]);
        assert(binding_of(fs[i as int]) is Ok);
        match bind_entry(fns[i]) {
            Ok((d, ins, out)) => {
                let m = BoundMethod {
                    ident: idents[i].clone(),
                    signature: signature(fns[i]),
                    dispatch: d,
                    inputs: ins,
                    output: out,
                };
                methods.push(m);
            },
            Err(_) => {},
        }
        i = i + 1;
    }
    Ok(Deployable { code, methods })
}

/// A deployable artifact with no methods, for a dialect whose compiler gives
/// no interface description.
pub fn artifact_from_bytecode(bytecode: &str) -> (r: Result<Deployable, GenError>)
    ensures
        match code_bytes(bytecode@) {
            None => r == Err::<Deployable, _>(GenError::InvalidBytecode),
            Some(c) => r matches Ok(d) && d.code@ == c && d.methods@.len() == 0,
        },
{
    match decode_code(bytecode) {
        Some(code) => Ok(Deployable { code, methods: Vec::new() }),
        None => Err(GenError::InvalidBytecode),
    }
}

proof fn lemma_decimal_value(n: nat)
    ensures
        number_value(decimal(n)) == n,
    decreases n,
{
    let c = digit_char(n % 10);
    assert(c as u32 == ((n % 10) + 48) as u8 as u32);
    assert(digit_value(c) == n % 10);
    if n >= 10 {
        lemma_decimal_value(n / 10);
        let d = decimal(n / 10).push(digit_char(n % 10));
        assert(d.drop_last() =~= decimal(n / 10));
        assert(number_value(d) == number_value(decimal(n / 10)) * 10 + digit_value(c));
        assert((n / 10) * 10 + n % 10 == n) by (nonlinear_arith);
    } else {
        assert(seq![c].drop_last() =~= Seq::<char>::empty());
        assert(number_value(seq![c]) == number_value(Seq::<char>::empty()) * 10 + digit_value(c));
    }
}

proof fn lemma_count_grows(names: Seq<Seq<char>>, n: Seq<char>, i: int, j: int)
    requires
        0 <= i < j <= names.len(),
        names[i] == n,
    ensures
        count_before(names, n, j) > count_before(names, n, i),
    decreases j - i,
{
    if j > i + 1 {
        lemma_count_grows(names, n, i, j - 1);
    }
}

/// The last-declared function of each name keeps the bare name.
pub proof fn last_declared_keeps_name(names: Seq<Seq<char>>, i: int)
    requires
        0 <= i < names.len(),
        is_last_of_name(names, i),
    ensures
        ident_of(names, i) == names[i],
{
}

/// Functions that share a name always get different identifiers.
pub proof fn same_name_identifiers_differ(names: Seq<Seq<char>>, i: int, j: int)
    requires
        0 <= i < j < names.len(),
        names[i] == names[j],
    ensures
        ident_of(names, i) != ident_of(names, j),
{
    let n = names[i];
    assert(!is_last_of_name(names, i));
    let a = count_before(names, n, i);
    let b = count_before(names, n, j);
    lemma_count_grows(names, n, i, j);
    lemma_decimal_value(a);
    lemma_decimal_value(b);
    if is_last_of_name(names, j) {
        assert(decimal(a).len() > 0);
        assert(ident_of(names, i).len() > ident_of(names, j).len());
    } else if ident_of(names, i) == ident_of(names, j) {
        assert((n + decimal(a)).subrange(n.len() as int, (n + decimal(a)).len() as int) =~= decimal(a));
        assert((n + decimal(b)).subrange(n.len() as int, (n + decimal(b)).len() as int) =~= decimal(b));
    }
}

} // verus!
