//! The context-sensitive streaming emitter for collection files.
//!
//! An [`ArchiveFormatter`] receives the structural events of a depth-first
//! walk over a two-level document — a root object whose values are arrays
//! of flat records — and appends formatted text to a `String` sink as each
//! event arrives. The root object and its arrays are expanded across lines
//! with two-space indentation; each record is collapsed onto a single
//! line, and any container unexpectedly nested inside a record collapses
//! with it instead of failing. Every method's contract states the exact
//! text appended and the exact state transition, so a whole pass is pinned
//! down byte for byte.

use vstd::prelude::*;

use crate::text::dec_rep;
use crate::text::spaces;
use crate::text::spaces_str;
use crate::text::u64_to_dec;

verus! {

/// Formatting context for one pass: whether the root object has opened,
/// whether the emitter currently sits inside a collapsed record, how many
/// containers are open inside that record beyond the record itself, and
/// the current indentation width in spaces.
pub struct ArchiveFormatter {
    pub inside_archive: bool,
    pub inside_card: bool,
    pub card_depth: usize,
    pub indent: usize,
}

impl ArchiveFormatter {
    /// A fresh emitter: outside the root, outside any record, no indent.
    pub fn new() -> (r: ArchiveFormatter)
        ensures
            !r.inside_archive,
            !r.inside_card,
            r.card_depth == 0,
            r.indent == 0,
    {
        ArchiveFormatter { inside_archive: false, inside_card: false, card_depth: 0, indent: 0 }
    }

    /// An object opens. The root object opens the file with `{` and a
    /// newline and deepens the indent; an object met in expanded context
    /// below the root starts a record, indented, collapsed from here on;
    /// an object inside a record writes a bare brace and only deepens the
    /// record-internal nesting count.
    pub fn begin_object(&mut self, out: &mut String)
        requires
            !old(self).inside_archive ==> old(self).indent + 2 <= usize::MAX,
            old(self).inside_card ==> old(self).card_depth + 1 <= usize::MAX,
        ensures
            final(self).inside_archive,
            !old(self).inside_archive ==> final(out)@ == old(out)@ + seq!['{', '\n']
                && final(self).inside_card == old(self).inside_card
                && final(self).card_depth == old(self).card_depth
                && final(self).indent == old(self).indent + 2,
            old(self).inside_archive && !old(self).inside_card ==> final(out)@ == old(out)@
                + spaces(old(self).indent as nat) + seq!['{'] && final(self).inside_card
                && final(self).card_depth == 0 && final(self).indent == old(self).indent,
            old(self).inside_archive && old(self).inside_card ==> final(out)@ == old(out)@
                + seq!['{'] && final(self).inside_card
                && final(self).card_depth == old(self).card_depth + 1
                && final(self).indent == old(self).indent,
    {
        if !self.inside_archive {
            self.inside_archive = true;
            self.indent = self.indent + 2;
            out.append("{\n");
            proof {
                reveal_strlit("{\n");
                assert(out@ =~= old(out)@ + seq!['{', '\n']);
            }
        } else if !self.inside_card {
            self.inside_card = true;
            self.card_depth = 0;
            let ind = spaces_str(self.indent);
            out.append(ind.as_str());
            out.append("{");
            proof {
                reveal_strlit("{");
                assert(out@ =~= old(out)@ + spaces(old(self).indent as nat) + seq!['{']);
            }
        } else {
            self.card_depth = self.card_depth + 1;
            out.append("{");
            proof {
                reveal_strlit("{");
                assert(out@ =~= old(out)@ + seq!['{']);
            }
        }
    }

    /// An object closes. Closing the record itself writes a bare brace and
    /// returns to the enclosing expanded context; closing an object nested
    /// inside a record only shallows the nesting count; closing the root
    /// shallows the indent and puts the brace on its own line.
    pub fn end_object(&mut self, out: &mut String)
        requires
            !old(self).inside_card && old(self).inside_archive ==> old(self).indent >= 2,
        ensures
            old(self).inside_card && old(self).card_depth == 0 ==> final(out)@ == old(out)@
                + seq!['}'] && !final(self).inside_card && final(self).card_depth == 0
                && final(self).inside_archive == old(self).inside_archive
                && final(self).indent == old(self).indent,
            old(self).inside_card && old(self).card_depth > 0 ==> final(out)@ == old(out)@
                + seq!['}'] && final(self).inside_card
                && final(self).card_depth == old(self).card_depth - 1
                && final(self).inside_archive == old(self).inside_archive
                && final(self).indent == old(self).indent,
            !old(self).inside_card && old(self).inside_archive ==> final(out)@ == old(out)@
                + seq!['\n'] + spaces((old(self).indent - 2) as nat) + seq!['}']
                && !final(self).inside_archive && final(self).inside_card == old(self).inside_card
                && final(self).card_depth == old(self).card_depth
                && final(self).indent == old(self).indent - 2,
            !old(self).inside_card && !old(self).inside_archive ==> final(out)@ == old(out)@
                + seq!['}'] && *final(self) == *old(self),
    {
        if self.inside_card {
            if self.card_depth == 0 {
                self.inside_card = false;
            } else {
                self.card_depth = self.card_depth - 1;
            }
            out.append("}");
            proof {
                reveal_strlit("}");
                assert(out@ =~= old(out)@ + seq!['}']);
            }
        } else if self.inside_archive {
            self.inside_archive = false;
            self.indent = self.indent - 2;
            out.append("\n");
            let ind = spaces_str(self.indent);
            out.append(ind.as_str());
            out.append("}");
            proof {
                reveal_strlit("\n");
                reveal_strlit("}");
                assert(out@ =~= old(out)@ + seq!['\n'] + spaces((old(self).indent - 2) as nat)
                    + seq!['}']);
            }
        } else {
            out.append("}");
            proof {
                reveal_strlit("}");
                assert(out@ =~= old(out)@ + seq!['}']);
            }
        }
    }

    /// A key is about to be written. In expanded context every key starts
    /// on its own indented line, with a comma closing the previous member;
    /// inside a record only the comma separates members. The state does not
    /// change.
    pub fn begin_object_key(&mut self, out: &mut String, first: bool)
        ensures
            *final(self) == *old(self),
            !old(self).inside_card && first ==> final(out)@ == old(out)@
                + spaces(old(self).indent as nat),
            !old(self).inside_card && !first ==> final(out)@ == old(out)@ + seq![',', '\n']
                + spaces(old(self).indent as nat),
            old(self).inside_card && first ==> final(out)@ == old(out)@,
            old(self).inside_card && !first ==> final(out)@ == old(out)@ + seq![','],
    {
        if !self.inside_card {
            let ind = spaces_str(self.indent);
            if first {
                out.append(ind.as_str());
            } else {
                out.append(",\n");
                out.append(ind.as_str());
                proof {
                    reveal_strlit(",\n");
                    assert(out@ =~= old(out)@ + seq![',', '\n'] + spaces(
                        old(self).indent as nat,
                    ));
                }
            }
        } else {
            if !first {
                out.append(",");
                proof {
                    reveal_strlit(",");
                    assert(out@ =~= old(out)@ + seq![',']);
                }
            }
        }
    }

    /// The separator between a key and its value.
    pub fn begin_object_value(&mut self, out: &mut String)
        ensures
            *final(self) == *old(self),
            final(out)@ == old(out)@ + seq![':', ' '],
    {
        out.append(": ");
        proof {
            reveal_strlit(": ");
            assert(out@ =~= old(out)@ + seq![':', ' ']);
        }
    }

    /// A value has been written; nothing is emitted.
    pub fn end_object_value(&mut self, out: &mut String)
        ensures
            *final(self) == *old(self),
            final(out)@ == old(out)@,
    {
    }

    /// An array element is about to be written. In an expanded array every
    /// element starts on its own line; inside a record only a comma
    /// separates elements. The state does not change.
    pub fn begin_array_value(&mut self, out: &mut String, first: bool)
        ensures
            *final(self) == *old(self),
            old(self).inside_card && first ==> final(out)@ == old(out)@,
            old(self).inside_card && !first ==> final(out)@ == old(out)@ + seq![','],
            !old(self).inside_card && first ==> final(out)@ == old(out)@ + seq!['\n'],
            !old(self).inside_card && !first ==> final(out)@ == old(out)@ + seq![',', '\n'],
    {
        if self.inside_card {
            if !first {
                out.append(",");
                proof {
                    reveal_strlit(",");
                    assert(out@ =~= old(out)@ + seq![',']);
                }
            }
        } else {
            if first {
                out.append("\n");
                proof {
                    reveal_strlit("\n");
                    assert(out@ =~= old(out)@ + seq!['\n']);
                }
            } else {
                out.append(",\n");
                proof {
                    reveal_strlit(",\n");
                    assert(out@ =~= old(out)@ + seq![',', '\n']);
                }
            }
        }
    }

    /// An array element has been written; nothing is emitted.
    pub fn end_array_value(&mut self, out: &mut String)
        ensures
            *final(self) == *old(self),
            final(out)@ == old(out)@,
    {
    }

    /// An array opens. Outside a record the array is expanded, so the
    /// indent deepens; inside a record only the bracket is written and the
    /// record-internal nesting count deepens.
    pub fn begin_array(&mut self, out: &mut String)
        requires
            !old(self).inside_card ==> old(self).indent + 2 <= usize::MAX,
            old(self).inside_card ==> old(self).card_depth + 1 <= usize::MAX,
        ensures
            final(out)@ == old(out)@ + seq!['['],
            final(self).inside_archive == old(self).inside_archive,
            final(self).inside_card == old(self).inside_card,
            !old(self).inside_card ==> final(self).indent == old(self).indent + 2
                && final(self).card_depth == old(self).card_depth,
            old(self).inside_card ==> final(self).indent == old(self).indent
                && final(self).card_depth == old(self).card_depth + 1,
    {
        if !self.inside_card {
            self.indent = self.indent + 2;
        } else {
            self.card_depth = self.card_depth + 1;
        }
        out.append("[");
        proof {
            reveal_strlit("[");
            assert(out@ =~= old(out)@ + seq!['[']);
        }
    }

    /// An array closes. Outside a record the indent shallows and the
    /// bracket goes on its own line; inside a record only the bracket is
    /// written and the record-internal nesting count shallows.
    pub fn end_array(&mut self, out: &mut String)
        requires
            !old(self).inside_card ==> old(self).indent >= 2,
        ensures
            final(self).inside_archive == old(self).inside_archive,
            final(self).inside_card == old(self).inside_card,
            old(self).inside_card ==> final(out)@ == old(out)@ + seq![']']
                && final(self).indent == old(self).indent,
            old(self).inside_card && old(self).card_depth > 0 ==> final(self).card_depth == old(
                self,
            ).card_depth - 1,
            old(self).inside_card && old(self).card_depth == 0 ==> final(self).card_depth == 0,
            !old(self).inside_card ==> final(out)@ == old(out)@ + seq!['\n']
                + spaces((old(self).indent - 2) as nat) + seq![']']
                && final(self).indent == old(self).indent - 2
                && final(self).card_depth == old(self).card_depth,
    {
        if self.inside_card {
            if self.card_depth > 0 {
                self.card_depth = self.card_depth - 1;
            }
            out.append("]");
            proof {
                reveal_strlit("]");
                assert(out@ =~= old(out)@ + seq![']']);
            }
        } else {
            self.indent = self.indent - 2;
            out.append("\n");
            let ind = spaces_str(self.indent);
            out.append(ind.as_str());
            out.append("]");
            proof {
                reveal_strlit("\n");
                reveal_strlit("]");
                assert(out@ =~= old(out)@ + seq!['\n'] + spaces((old(self).indent - 2) as nat)
                    + seq![']']);
            }
        }
    }

    /// Writes the compact scalar `null`.
    pub fn write_null(&mut self, out: &mut String)
        ensures
            *final(self) == *old(self),
            final(out)@ == old(out)@ + seq!['n', 'u', 'l', 'l'],
    {
        out.append("null");
        proof {
            reveal_strlit("null");
            assert(out@ =~= old(out)@ + seq!['n', 'u', 'l', 'l']);
        }
    }

    /// Writes a compact boolean scalar.
    pub fn write_bool(&mut self, out: &mut String, value: bool)
        ensures
            *final(self) == *old(self),
            value ==> final(out)@ == old(out)@ + seq!['t', 'r', 'u', 'e'],
            !value ==> final(out)@ == old(out)@ + seq!['f', 'a', 'l', 's', 'e'],
    {
        if value {
            out.append("true");
            proof {
                reveal_strlit("true");
                assert(out@ =~= old(out)@ + seq!['t', 'r', 'u', 'e']);
            }
        } else {
            out.append("false");
            proof {
                reveal_strlit("false");
                assert(out@ =~= old(out)@ + seq!['f', 'a', 'l', 's', 'e']);
            }
        }
    }

    /// Writes a compact unsigned integer scalar in decimal.
    pub fn write_u64(&mut self, out: &mut String, value: u64)
        ensures
            *final(self) == *old(self),
            final(out)@ == old(out)@ + dec_rep(value as nat),
    {
        let digits = u64_to_dec(value);
        out.append(digits.as_str());
    }
}

} // verus!
