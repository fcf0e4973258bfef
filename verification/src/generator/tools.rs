//! The tools that a CNI document lists.

use crate::config::{DEFAULT_LINEAR_TOOL, DEFAULT_SHAPED_TOOL, TOOL_TYPE_SHAPED};
use crate::generator::gcode::tool_code_text;
use crate::generator::program::{schema_uses_tool_type, uses_tool_type};
use crate::model::schema::Schema;
use crate::number::push_u64_padded;
use crate::parser::pattern::low_u16;
use vstd::prelude::*;

verus! {

/// The tool that a schema asks for with code `code`: the code itself, in
/// its 16 low bits, where it is positive, and `default` where it is not.
pub open spec fn tool_for(code: i32, default: u16) -> u16 {
    if code > 0 {
        low_u16(code)
    } else {
        default
    }
}

/// Whether schema `schema` needs tool `tool`: it is the linear tool of a
/// schema that has linear cuts, or the shaped tool of a schema one of
/// whose shapes uses the shaped tool.
pub open spec fn schema_needs<N>(schema: Schema<N>, tool: u16) -> bool {
    ||| schema.linear_cuts.len() > 0 && tool == tool_for(schema.linear_tool, DEFAULT_LINEAR_TOOL)
    ||| uses_tool_type(schema, TOOL_TYPE_SHAPED as int) && tool == tool_for(
        schema.shaped_tool,
        DEFAULT_SHAPED_TOOL,
    )
}

/// Whether one of `schemas` needs tool `tool`.
pub open spec fn needed<N>(schemas: Seq<Schema<N>>, tool: u16) -> bool {
    exists|k: int| 0 <= k < schemas.len() && schema_needs(#[trigger] schemas[k], tool)
}

/// Whether `tools` rise strictly: each is greater than the one before it.
pub open spec fn rising(tools: Seq<u16>) -> bool {
    forall|a: int, b: int| 0 <= a < b < tools.len() ==> tools[a] < tools[b]
}

/// Whether `tools` are the tools that `schemas` need: each of them once,
/// in ascending order.
pub open spec fn is_tool_list<N>(schemas: Seq<Schema<N>>, tools: Seq<u16>) -> bool {
    rising(tools) && forall|t: u16| tools.contains(t) <==> needed(schemas, t)
}

/// Two rising lists with the same members are the same list.
pub proof fn lemma_rising_unique(a: Seq<u16>, b: Seq<u16>)
    requires
        rising(a),
        rising(b),
        forall|t: u16| a.contains(t) <==> b.contains(t),
    ensures
        a == b,
    decreases a.len(),
{
    if a.len() == 0 {
        if b.len() > 0 {
            assert(b.contains(b[0]));
        }
        assert(a =~= b);
    } else {
        // the greatest member of each is its last
        assert(a.contains(a.last()));
        assert(b.contains(a.last()));
        let ib = choose|i: int| 0 <= i < b.len() && b[i] == a.last();
        assert(b.contains(b.last()));
        assert(a.contains(b.last()));
        let ia = choose|i: int| 0 <= i < a.len() && a[i] == b.last();
        assert(a.last() == b.last());
        let a0 = a.drop_last();
        let b0 = b.drop_last();
        assert forall|t: u16| a0.contains(t) <==> b0.contains(t) by {
            if a0.contains(t) {
                let i = choose|i: int| 0 <= i < a0.len() && a0[i] == t;
                assert(a[i] == t && t < a.last());
                assert(a.contains(t));
                let j = choose|j: int| 0 <= j < b.len() && b[j] == t;
                assert(j < b.len() - 1);
                assert(b0[j] == t);
            }
            if b0.contains(t) {
                let i = choose|i: int| 0 <= i < b0.len() && b0[i] == t;
                assert(b[i] == t && t < b.last());
                assert(b.contains(t));
                let j = choose|j: int| 0 <= j < a.len() && a[j] == t;
                assert(j < a.len() - 1);
                assert(a0[j] == t);
            }
        }
        lemma_rising_unique(a0, b0);
        assert(a =~= a0.push(a.last()));
        assert(b =~= b0.push(b.last()));
    }
}

/// The tool that a schema asks for with code `code`.
pub fn pick_tool(code: i32, default: u16) -> (t: u16)
    ensures
        t == tool_for(code, default),
{
    if code > 0 {
        (code % 65536) as u16
    } else {
        default
    }
}

/// Puts `tool` in its place in a rising list, unless it is there already.
pub fn insert_tool(tools: &mut Vec<u16>, tool: u16)
    requires
        rising(old(tools)@),
    ensures
        rising(final(tools)@),
        forall|t: u16| final(tools)@.contains(t) <==> (old(tools)@.contains(t) || t == tool),
{
    let mut k: usize = 0;
    while k < tools.len() && tools[k] < tool
        invariant
            k <= tools.len(),
            tools@ == old(tools)@,
            rising(tools@),
            forall|j: int| 0 <= j < k ==> tools[j] < tool,
        decreases tools.len() - k,
    {
        k += 1;
    }
    if k < tools.len() && tools[k] == tool {
        assert(tools@.contains(tool));
        return;
    }
    let ghost before = tools@;
    tools.insert(k, tool);
    proof {
        let after = tools@;
        assert(after =~= before.insert(k as int, tool));
        assert forall|a: int, b: int| 0 <= a < b < after.len() implies after[a] < after[b] by {
            let a0 = if a < k { a } else { a - 1 };
            let b0 = if b < k { b } else { b - 1 };
            if a != k && b != k {
                assert(after[a] == before[a0] && after[b] == before[b0]);
            } else if a == k {
                assert(after[b] == before[b0]);
                assert(before[k as int] <= before[b0]);
            } else {
                assert(after[a] == before[a0]);
            }
        }
        assert forall|t: u16| after.contains(t) <==> (before.contains(t) || t == tool) by {
            if after.contains(t) {
                let i = choose|i: int| 0 <= i < after.len() && after[i] == t;
                if i != k {
                    let i0 = if i < k { i } else { i - 1 };
                    assert(before[i0] == t);
                }
            }
            if before.contains(t) {
                let i = choose|i: int| 0 <= i < before.len() && before[i] == t;
                let i1 = if i < k { i } else { i + 1 };
                assert(after[i1] == t);
            }
            if t == tool {
                assert(after[k as int] == tool);
            }
        }
    }
}

/// The tools that `schemas` need, each once, in ascending order.
pub fn collect_tools<N>(schemas: &[Schema<N>]) -> (tools: Vec<u16>)
    ensures
        is_tool_list(schemas@, tools@),
{
    let mut tools: Vec<u16> = Vec::new();
    let mut k: usize = 0;
    while k < schemas.len()
        invariant
            k <= schemas.len(),
            rising(tools@),
            forall|t: u16| tools@.contains(t) <==> needed(schemas@.take(k as int), t),
        decreases schemas.len() - k,
    {
        let schema = &schemas[k];
        let ghost before = tools@;
        let ghost seen = schemas@.take(k as int);
        let ghost next = schemas@.take(k + 1);
        let linear = schema.linear_cuts.len() > 0;
        let shaped = schema_uses_tool_type(schema, TOOL_TYPE_SHAPED as usize);
        if linear {
            insert_tool(&mut tools, pick_tool(schema.linear_tool, DEFAULT_LINEAR_TOOL));
        }
        if shaped {
            insert_tool(&mut tools, pick_tool(schema.shaped_tool, DEFAULT_SHAPED_TOOL));
        }
        proof {
            assert(next[k as int] == *schema);
            assert forall|t: u16| tools@.contains(t) <==> needed(next, t) by {
                if needed(seen, t) {
                    let j = choose|j: int| 0 <= j < seen.len() && schema_needs(#[trigger] seen[j], t);
                    assert(next[j] == seen[j]);
                }
                if needed(next, t) && !schema_needs(*schema, t) {
                    let j = choose|j: int| 0 <= j < next.len() && schema_needs(#[trigger] next[j], t);
                    assert(seen[j] == next[j]);
                }
            }
        }
        k += 1;
    }
    assert(schemas@.take(schemas.len() as int) =~= schemas@);
    tools
}

/// The lines of a tool list: each tool in four digits.
pub open spec fn tool_lines(tools: Seq<u16>) -> Seq<char>
    decreases tools.len(),
{
    if tools.len() == 0 {
        Seq::empty()
    } else {
        tool_lines(tools.drop_last()) + tool_code_text(tools.last()) + seq!['\n']
    }
}

/// Appends the lines of a tool list.
pub fn push_tool_lines(out: &mut String, tools: &Vec<u16>)
    ensures
        final(out)@ == old(out)@ + tool_lines(tools@),
{
    let mut k: usize = 0;
    assert(tools@.take(0) =~= Seq::empty());
    assert(out@ =~= old(out)@ + tool_lines(tools@.take(0)));
    while k < tools.len()
        invariant
            k <= tools.len(),
            out@ == old(out)@ + tool_lines(tools@.take(k as int)),
        decreases tools.len() - k,
    {
        push_u64_padded(out, tools[k] as u64, 4);
        out.push('\n');
        proof {
            assert(tools@.take(k + 1).drop_last() =~= tools@.take(k as int));
            assert(out@ =~= old(out)@ + tool_lines(tools@.take(k + 1)));
        }
        k += 1;
    }
    assert(tools@.take(tools.len() as int) =~= tools@);
}

} // verus!
