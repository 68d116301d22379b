//! Assembly sections: absolute, relocatable, or none yet open.

use vstd::prelude::*;

use crate::node::Node;
use crate::stream::Error;

verus! {

/// A section under construction: the nodes parsed into it, plus
/// where it goes. `Unset` stands for no section being open; adding a
/// node then fails.
#[derive(Debug)]
pub enum Section {
    /// Placed at a fixed origin.
    Absolute { pos: u8, content: Vec<Node> },
    /// Named and placed later.
    RSect { name: String, content: Vec<Node> },
    /// A named template, kept for completeness.
    Template { name: String, content: Vec<Node> },
    /// No section open yet.
    Unset,
}

impl Section {
    /// The nodes the section holds.
    pub open spec fn spec_content(self) -> Seq<Node> {
        match self {
            Section::Absolute { content, .. } => content@,
            Section::RSect { content, .. } => content@,
            Section::Template { content, .. } => content@,
            Section::Unset => Seq::empty(),
        }
    }

    /// The two sections are the same kind of section, at the same
    /// place or under the same name.
    pub open spec fn same_frame(self, other: Section) -> bool {
        match (self, other) {
            (Section::Absolute { pos: p1, .. }, Section::Absolute { pos: p2, .. }) => p1 == p2,
            (Section::RSect { name: n1, .. }, Section::RSect { name: n2, .. }) => n1 == n2,
            (Section::Template { name: n1, .. }, Section::Template { name: n2, .. }) => n1 == n2,
            (Section::Unset, Section::Unset) => true,
            _ => false,
        }
    }

    /// A fresh absolute section at the given origin.
    pub fn absolute(pos: u8) -> (r: Self)
        ensures
            (r matches Section::Absolute { pos: p, content } && p == pos && content@
                == Seq::<Node>::empty()),
    {
        Self::Absolute { pos, content: Vec::new() }
    }

    /// A fresh relocatable section under the given name.
    pub fn rsect(name: String) -> (r: Self)
        ensures
            (r matches Section::RSect { name: n, content } && n == name && content@
                == Seq::<Node>::empty()),
    {
        Self::RSect { name, content: Vec::new() }
    }

    /// Append a node. Fails, changing nothing, exactly when no
    /// section is open; the error points at the node's range.
    pub fn add(&mut self, node: Node) -> (r: Result<(), Error>)
        ensures
            *old(self) is Unset ==> (r matches Err(e) && e.message@ == "Not in a section"@ && e.at
                == Some(node.range)) && *final(self) == *old(self),
            !(*old(self) is Unset) ==> r is Ok && old(self).same_frame(*final(self))
                && final(self).spec_content() == old(self).spec_content().push(node),
    {
        match self {
            Section::Absolute { content, .. } => {
                content.push(node);
                Ok(())
            },
            Section::RSect { content, .. } => {
                content.push(node);
                Ok(())
            },
            Section::Template { content, .. } => {
                content.push(node);
                Ok(())
            },
            Section::Unset => Err(
                Error::new(String::from_str("Not in a section"), node.range()),
            ),
        }
    }

    /// The section written out: its directive line, then each node
    /// indented on a line of its own.
    pub fn to_text(&self) -> (r: String)
        ensures
            r@ == spec_section_text(*self),
    {
        match self {
            Section::Absolute { pos, content } => {
                let header = String::from_str("asect ").concat(
                    crate::node::dec_text(*pos).as_str(),
                ).concat("\n");
                section_body(header, content)
            },
            Section::RSect { name, content } => {
                let header = String::from_str("rsect ").concat(name.as_str()).concat("\n");
                section_body(header, content)
            },
            Section::Template { name, content } => {
                let header = String::from_str("tplate ").concat(name.as_str()).concat("\n");
                section_body(header, content)
            },
            Section::Unset => String::from_str("[NONE]\n"),
        }
    }
}

/// The lines of a section's nodes, each indented.
pub open spec fn spec_section_items(content: Seq<Node>) -> Seq<char>
    decreases content.len(),
{
    if content.len() == 0 {
        Seq::empty()
    } else {
        spec_section_items(content.drop_last()) + "  "@ + crate::node::spec_type_text(
            content.last().data,
        ) + "\n"@
    }
}

/// The text a section is written as.
pub open spec fn spec_section_text(s: Section) -> Seq<char> {
    match s {
        Section::Absolute { pos, content } => "asect "@ + crate::node::spec_dec(pos) + "\n"@
            + spec_section_items(content@),
        Section::RSect { name, content } => "rsect "@ + name@ + "\n"@ + spec_section_items(
            content@,
        ),
        Section::Template { name, content } => "tplate "@ + name@ + "\n"@ + spec_section_items(
            content@,
        ),
        Section::Unset => "[NONE]\n"@,
    }
}

/// Append each node of a section, indented on its own line.
fn section_body(header: String, content: &Vec<Node>) -> (r: String)
    ensures
        r@ == header@ + spec_section_items(content@),
{
    let mut out = header;
    let mut i: usize = 0;
    proof {
        assert(content@.subrange(0, 0) =~= Seq::<Node>::empty());
        assert(out@ =~= out@ + spec_section_items(content@.subrange(0, 0)));
    }
    while i < content.len()
        invariant
            i <= content@.len(),
            out@ == header@ + spec_section_items(content@.subrange(0, i as int)),
        decreases content@.len() - i,
    {
        out = out.concat("  ").concat(content[i].data().to_text().as_str()).concat("\n");
        proof {
            assert(content@.subrange(0, i as int + 1).drop_last() =~= content@.subrange(
                0,
                i as int,
            ));
            assert(content@.subrange(0, i as int + 1).last() == content@[i as int]);
            assert(out@ =~= header@ + spec_section_items(content@.subrange(0, i as int + 1)));
        }
        i = i + 1;
    }
    proof {
        assert(content@.subrange(0, content@.len() as int) =~= content@);
    }
    out
}

} // verus!
