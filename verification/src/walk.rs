//! The bounded depth-first tree walk.
//!
//! The directory tree is modelled as a value: each node is a file with its
//! decoded content, or a directory with its entries in listing order. The
//! walk visits entries pre-order, prunes excluded entries whole, renders each
//! included file as one block, and stops once the emission counter reaches
//! the limit. The emitted document and the final counter are a function of
//! the tree and the configuration alone.

use vstd::prelude::*;
use crate::emit::{concatenate_file, spec_content_view, spec_file_block};
use crate::patterns::{should_exclude, spec_excluded};

verus! {

/// One entry of the modelled tree: a file with its name and its decoded
/// content (`None` where the bytes are not valid text), or a directory with
/// its entries in listing order.
pub enum FsNode {
    File { name: String, content: Option<String> },
    Dir { name: String, entries: Vec<FsNode> },
}

impl FsNode {
    /// The bare filename of this entry.
    pub open spec fn spec_name(self) -> Seq<char> {
        match self {
            FsNode::File { name, .. } => name@,
            FsNode::Dir { name, .. } => name@,
        }
    }
}

/// The view of a file's optional content.
pub open spec fn spec_opt_content(content: Option<String>) -> Option<Seq<char>> {
    match content {
        Some(c) => Some(c@),
        None => None,
    }
}

/// The relative path of a child entry: the bare name at the root, otherwise
/// the parent's relative path, a separator, and the name.
pub open spec fn spec_join(prefix: Seq<char>, name: Seq<char>) -> Seq<char> {
    if prefix.len() == 0 {
        name
    } else {
        prefix + "/"@ + name
    }
}

/// What the walk appends to the document for one entry, and the counter
/// after it: nothing for an excluded entry, one block and one increment for
/// an included file, the walk of the entries for an included directory.
pub open spec fn spec_walk_node(
    node: FsNode,
    prefix: Seq<char>,
    table: Seq<(String, bool, bool)>,
    ignore_hidden: bool,
    count: nat,
    limit: nat,
) -> (Seq<char>, nat)
    decreases node,
{
    let name = node.spec_name();
    let rel = spec_join(prefix, name);
    if spec_excluded(table, rel, name, ignore_hidden) {
        (Seq::empty(), count)
    } else {
        match node {
            FsNode::File { name: n, content } => (
                spec_file_block(rel, n@, spec_opt_content(content)),
                count + 1,
            ),
            FsNode::Dir { name: n, entries } => spec_walk_list(
                entries@,
                rel,
                table,
                ignore_hidden,
                count,
                limit,
            ),
        }
    }
}

/// What the walk appends for a list of sibling entries, in order, and the
/// counter after them; it stops before any entry once the counter has
/// reached the limit.
pub open spec fn spec_walk_list(
    entries: Seq<FsNode>,
    prefix: Seq<char>,
    table: Seq<(String, bool, bool)>,
    ignore_hidden: bool,
    count: nat,
    limit: nat,
) -> (Seq<char>, nat)
    decreases entries,
{
    if entries.len() == 0 {
        (Seq::empty(), count)
    } else if count >= limit {
        (Seq::empty(), count)
    } else {
        let head = spec_walk_node(entries[0], prefix, table, ignore_hidden, count, limit);
        let rest = spec_walk_list(
            entries.drop_first(),
            prefix,
            table,
            ignore_hidden,
            head.1,
            limit,
        );
        (head.0 + rest.0, rest.1)
    }
}

/// How many eligible files one entry holds: files that an unbounded walk
/// would emit beneath it.
pub open spec fn spec_eligible_node(
    node: FsNode,
    prefix: Seq<char>,
    table: Seq<(String, bool, bool)>,
    ignore_hidden: bool,
) -> nat
    decreases node,
{
    let name = node.spec_name();
    let rel = spec_join(prefix, name);
    if spec_excluded(table, rel, name, ignore_hidden) {
        0
    } else {
        match node {
            FsNode::File { .. } => 1,
            FsNode::Dir { name: n, entries } => spec_eligible_list(
                entries@,
                rel,
                table,
                ignore_hidden,
            ),
        }
    }
}

/// How many eligible files a list of sibling entries holds.
pub open spec fn spec_eligible_list(
    entries: Seq<FsNode>,
    prefix: Seq<char>,
    table: Seq<(String, bool, bool)>,
    ignore_hidden: bool,
) -> nat
    decreases entries,
{
    if entries.len() == 0 {
        0
    } else {
        spec_eligible_node(entries[0], prefix, table, ignore_hidden) + spec_eligible_list(
            entries.drop_first(),
            prefix,
            table,
            ignore_hidden,
        )
    }
}

/// The smaller of a counter value and the limit.
pub open spec fn spec_cap(n: nat, limit: nat) -> nat {
    if n <= limit {
        n
    } else {
        limit
    }
}

/// The counter after one entry grows by the entry's eligible files, capped
/// at the limit.
pub proof fn lemma_walk_node_count(
    node: FsNode,
    prefix: Seq<char>,
    table: Seq<(String, bool, bool)>,
    ignore_hidden: bool,
    count: nat,
    limit: nat,
)
    requires
        count < limit,
    ensures
        spec_walk_node(node, prefix, table, ignore_hidden, count, limit).1 == spec_cap(
            count + spec_eligible_node(node, prefix, table, ignore_hidden),
            limit,
        ),
    decreases node,
{
    let name = node.spec_name();
    let rel = spec_join(prefix, name);
    if !spec_excluded(table, rel, name, ignore_hidden) {
        match node {
            FsNode::File { .. } => {},
            FsNode::Dir { name: n, entries } => {
                lemma_walk_list_count(entries@, rel, table, ignore_hidden, count, limit);
            },
        }
    }
}

/// The counter after a list of sibling entries grows by their eligible
/// files, capped at the limit.
pub proof fn lemma_walk_list_count(
    entries: Seq<FsNode>,
    prefix: Seq<char>,
    table: Seq<(String, bool, bool)>,
    ignore_hidden: bool,
    count: nat,
    limit: nat,
)
    requires
        count <= limit,
    ensures
        spec_walk_list(entries, prefix, table, ignore_hidden, count, limit).1 == spec_cap(
            count + spec_eligible_list(entries, prefix, table, ignore_hidden),
            limit,
        ),
    decreases entries,
{
    if entries.len() == 0 {
    } else if count >= limit {
    } else {
        lemma_walk_node_count(entries[0], prefix, table, ignore_hidden, count, limit);
        let c1 = spec_walk_node(entries[0], prefix, table, ignore_hidden, count, limit).1;
        lemma_walk_list_count(entries.drop_first(), prefix, table, ignore_hidden, c1, limit);
    }
}

/// Emission never exceeds the limit; and a tree with at least `limit`
/// eligible files yields exactly `limit` emissions, the rest silently
/// omitted.
pub proof fn lemma_emission_limit(
    entries: Seq<FsNode>,
    table: Seq<(String, bool, bool)>,
    ignore_hidden: bool,
    limit: nat,
)
    ensures
        spec_walk_list(entries, Seq::empty(), table, ignore_hidden, 0, limit).1 <= limit,
        spec_eligible_list(entries, Seq::empty(), table, ignore_hidden) >= limit
            ==> spec_walk_list(entries, Seq::empty(), table, ignore_hidden, 0, limit).1 == limit,
{
    lemma_walk_list_count(entries, Seq::empty(), table, ignore_hidden, 0, limit);
}

/// Idempotence: the walk is a function of the tree and the configuration
/// alone, so a second run over an unchanged tree with an unchanged table
/// yields a byte-identical document and the same counter.
pub proof fn lemma_walk_idempotent(
    entries: Seq<FsNode>,
    table: Seq<(String, bool, bool)>,
    ignore_hidden: bool,
    limit: nat,
)
    ensures
        spec_walk_list(entries, Seq::empty(), table, ignore_hidden, 0, limit) == spec_walk_list(
            entries,
            Seq::empty(),
            table,
            ignore_hidden,
            0,
            limit,
        ),
{
}

/// An excluded entry is pruned whole, at any depth and at any position among
/// its siblings: the walk of the listing equals the walk of the listing with
/// the entry removed, so nothing beneath the entry is ever consulted or
/// emitted and the counter never moves for it.
pub proof fn lemma_excluded_entry_removable(
    entries: Seq<FsNode>,
    i: int,
    prefix: Seq<char>,
    table: Seq<(String, bool, bool)>,
    ignore_hidden: bool,
    count: nat,
    limit: nat,
)
    requires
        0 <= i < entries.len(),
        spec_excluded(
            table,
            spec_join(prefix, entries[i].spec_name()),
            entries[i].spec_name(),
            ignore_hidden,
        ),
    ensures
        spec_walk_list(entries, prefix, table, ignore_hidden, count, limit) == spec_walk_list(
            entries.remove(i),
            prefix,
            table,
            ignore_hidden,
            count,
            limit,
        ),
    decreases entries.len(),
{
    if count >= limit {
    } else if i == 0 {
        assert(spec_walk_node(entries[0], prefix, table, ignore_hidden, count, limit) == (
            Seq::<char>::empty(),
            count,
        ));
        assert(entries.remove(0) =~= entries.drop_first());
        let rest = spec_walk_list(
            entries.drop_first(),
            prefix,
            table,
            ignore_hidden,
            count,
            limit,
        );
        assert(Seq::<char>::empty() + rest.0 =~= rest.0);
    } else {
        let head = spec_walk_node(entries[0], prefix, table, ignore_hidden, count, limit);
        assert(entries.remove(i)[0] == entries[0]);
        assert(entries.remove(i).drop_first() =~= entries.drop_first().remove(i - 1));
        assert(entries.drop_first()[i - 1] == entries[i]);
        lemma_excluded_entry_removable(
            entries.drop_first(),
            i - 1,
            prefix,
            table,
            ignore_hidden,
            head.1,
            limit,
        );
    }
}

/// With the hidden-file rule on, a dotted entry anywhere in a listing is
/// removable: the document and the counter are those of the tree without it,
/// so no file beneath a hidden directory is ever emitted.
pub proof fn lemma_hidden_entry_removable(
    entries: Seq<FsNode>,
    i: int,
    prefix: Seq<char>,
    table: Seq<(String, bool, bool)>,
    count: nat,
    limit: nat,
)
    requires
        0 <= i < entries.len(),
        entries[i].spec_name().len() > 0,
        entries[i].spec_name()[0] == '.',
    ensures
        spec_walk_list(entries, prefix, table, true, count, limit) == spec_walk_list(
            entries.remove(i),
            prefix,
            table,
            true,
            count,
            limit,
        ),
{
    crate::patterns::lemma_hidden_precedence(
        table,
        spec_join(prefix, entries[i].spec_name()),
        entries[i].spec_name(),
    );
    lemma_excluded_entry_removable(entries, i, prefix, table, true, count, limit);
}

/// An anchored literal pattern in the table prunes, at any depth, every
/// entry whose relative path starts with the pattern trimmed of leading and
/// trailing separators: the walk appends nothing for the entry and never
/// descends beneath it.
pub proof fn lemma_anchored_literal_prunes(
    node: FsNode,
    prefix: Seq<char>,
    table: Seq<(String, bool, bool)>,
    j: int,
    ignore_hidden: bool,
    count: nat,
    limit: nat,
)
    requires
        0 <= j < table.len(),
        !table[j].1,
        table[j].2,
        crate::patterns::spec_trim_end_slashes(crate::patterns::spec_normalize(table[j].0@))
            .is_prefix_of(spec_join(prefix, node.spec_name())),
    ensures
        spec_walk_node(node, prefix, table, ignore_hidden, count, limit) == (
            Seq::<char>::empty(),
            count,
        ),
{
    crate::patterns::lemma_anchored_literal_excludes(
        table,
        j,
        spec_join(prefix, node.spec_name()),
        node.spec_name(),
        ignore_hidden,
    );
}

/// With the hidden-file rule on, a dotted entry is pruned whole, whatever
/// the decision table holds: the walk appends nothing for it, leaves the
/// counter alone, and never looks beneath it.
pub proof fn lemma_hidden_dir_pruned(
    node: FsNode,
    prefix: Seq<char>,
    table: Seq<(String, bool, bool)>,
    count: nat,
    limit: nat,
)
    requires
        node.spec_name().len() > 0,
        node.spec_name()[0] == '.',
    ensures
        spec_walk_node(node, prefix, table, true, count, limit) == (Seq::<char>::empty(), count),
{
    crate::patterns::lemma_hidden_precedence(
        table,
        spec_join(prefix, node.spec_name()),
        node.spec_name(),
    );
}

/// A file whose bytes are not valid text is still emitted: its block holds
/// the sentinel body in place of content, and it counts toward the limit.
pub proof fn lemma_non_text_emitted(
    name: String,
    prefix: Seq<char>,
    table: Seq<(String, bool, bool)>,
    ignore_hidden: bool,
    count: nat,
    limit: nat,
)
    requires
        !spec_excluded(table, spec_join(prefix, name@), name@, ignore_hidden),
    ensures
        spec_walk_node(
            FsNode::File { name, content: None },
            prefix,
            table,
            ignore_hidden,
            count,
            limit,
        ) == (spec_file_block(spec_join(prefix, name@), name@, None::<Seq<char>>), count + 1),
{
}

/// The walk of one entry, executable form.
fn walk_node(
    node: &FsNode,
    prefix: &str,
    table: &Vec<(String, bool, bool)>,
    ignore_hidden: bool,
    count: usize,
    limit: usize,
) -> (r: (String, usize))
    requires
        count < limit,
    ensures
        r.0@ == spec_walk_node(*node, prefix@, table@, ignore_hidden, count as nat, limit as nat).0,
        r.1 as nat == spec_walk_node(
            *node,
            prefix@,
            table@,
            ignore_hidden,
            count as nat,
            limit as nat,
        ).1,
        r.1 <= limit,
    decreases *node,
{
    let name: &String = match node {
        FsNode::File { name, .. } => name,
        FsNode::Dir { name, .. } => name,
    };
    let rel: String = if prefix.is_empty() {
        name.as_str().to_owned()
    } else {
        let mut joined = prefix.to_owned();
        joined.append("/");
        joined.append(name.as_str());
        joined
    };
    proof {
        assert(name@ == node.spec_name());
        assert(rel@ =~= spec_join(prefix@, node.spec_name()));
    }
    if should_exclude(rel.as_str(), name.as_str(), table, ignore_hidden) {
        (String::new(), count)
    } else {
        match node {
            FsNode::File { name: fname, content } => {
                let content_ref: Option<&str> = match content {
                    Some(c) => Some(c.as_str()),
                    None => None,
                };
                proof {
                    assert(spec_content_view(content_ref) == spec_opt_content(*content));
                }
                let block = concatenate_file(rel.as_str(), fname.as_str(), content_ref);
                (block, count + 1)
            },
            FsNode::Dir { entries, .. } => {
                walk_entries(entries, rel.as_str(), table, ignore_hidden, count, limit)
            },
        }
    }
}

/// The walk of a list of sibling entries, executable form: an accumulator
/// returned from each call stands in for the shared counter.
fn walk_entries(
    entries: &Vec<FsNode>,
    prefix: &str,
    table: &Vec<(String, bool, bool)>,
    ignore_hidden: bool,
    count: usize,
    limit: usize,
) -> (r: (String, usize))
    requires
        count <= limit,
    ensures
        r.0@ == spec_walk_list(
            entries@,
            prefix@,
            table@,
            ignore_hidden,
            count as nat,
            limit as nat,
        ).0,
        r.1 as nat == spec_walk_list(
            entries@,
            prefix@,
            table@,
            ignore_hidden,
            count as nat,
            limit as nat,
        ).1,
        r.1 <= limit,
    decreases entries@,
{
    let ghost full = spec_walk_list(
        entries@,
        prefix@,
        table@,
        ignore_hidden,
        count as nat,
        limit as nat,
    );
    let mut out = String::new();
    let mut c = count;
    let mut i: usize = 0;
    let mut capped = false;
    proof {
        assert(entries@.subrange(0, entries@.len() as int) =~= entries@);
        assert(out@ + full.0 =~= full.0);
    }
    while !capped && i < entries.len()
        invariant
            i <= entries@.len(),
            c <= limit,
            capped ==> c >= limit,
            full == spec_walk_list(
                entries@,
                prefix@,
                table@,
                ignore_hidden,
                count as nat,
                limit as nat,
            ),
            out@ + spec_walk_list(
                entries@.subrange(i as int, entries@.len() as int),
                prefix@,
                table@,
                ignore_hidden,
                c as nat,
                limit as nat,
            ).0 == full.0,
            spec_walk_list(
                entries@.subrange(i as int, entries@.len() as int),
                prefix@,
                table@,
                ignore_hidden,
                c as nat,
                limit as nat,
            ).1 == full.1,
        decreases (if capped {
            0int
        } else {
            1int
        }) + entries@.len() - i,
    {
        if c >= limit {
            capped = true;
        } else {
            proof {
                let rem = entries@.subrange(i as int, entries@.len() as int);
                assert(rem[0] == entries@[i as int]);
                assert(rem.drop_first() =~= entries@.subrange(i as int + 1, entries@.len() as int));
            }
            let ghost prev_out = out@;
            let step = walk_node(&entries[i], prefix, table, ignore_hidden, c, limit);
            out.append(step.0.as_str());
            c = step.1;
            proof {
                let rest = spec_walk_list(
                    entries@.subrange(i as int + 1, entries@.len() as int),
                    prefix@,
                    table@,
                    ignore_hidden,
                    c as nat,
                    limit as nat,
                );
                assert(out@ + rest.0 =~= prev_out + (step.0@ + rest.0));
            }
            i += 1;
        }
    }
    proof {
        if !capped {
            assert(entries@.subrange(entries@.len() as int, entries@.len() as int)
                =~= Seq::<FsNode>::empty());
        }
        assert(out@ =~= out@ + Seq::<char>::empty());
    }
    (out, c)
}

/// Walks the tree depth-first, pre-order, in listing order: excluded entries
/// are pruned whole, each included file becomes one labelled block, and the
/// walk stops once the emission counter reaches the limit. Returns the
/// document body and the number of files emitted.
pub fn walk_and_concatenate(
    entries: &Vec<FsNode>,
    classified_patterns: &Vec<(String, bool, bool)>,
    ignore_hidden: bool,
    limit: usize,
) -> (r: (String, usize))
    ensures
        r.0@ == spec_walk_list(
            entries@,
            Seq::empty(),
            classified_patterns@,
            ignore_hidden,
            0,
            limit as nat,
        ).0,
        r.1 as nat == spec_walk_list(
            entries@,
            Seq::empty(),
            classified_patterns@,
            ignore_hidden,
            0,
            limit as nat,
        ).1,
        r.1 <= limit,
{
    proof {
        reveal_strlit("");
        assert(""@ =~= Seq::<char>::empty());
    }
    walk_entries(entries, "", classified_patterns, ignore_hidden, 0, limit)
}

} // verus!
