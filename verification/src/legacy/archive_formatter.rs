//! The earlier archive emitter: four-space indentation, keys on their own
//! unindented lines, compact key separators, and no member commas inside
//! a record. Kept with exact contracts so that files written by it can be
//! reproduced byte for byte.

use vstd::prelude::*;

use crate::text::dec_rep;
use crate::text::spaces;
use crate::text::spaces_str;
use crate::text::u64_to_dec;

verus! {

/// Formatting context of the earlier archive emitter.
pub struct ArchiveFormatter {
    pub inside_archive: bool,
    pub inside_card: bool,
    pub indent: usize,
}

impl ArchiveFormatter {
    /// A fresh emitter: outside the root, outside any record, no indent.
    pub fn new() -> (r: ArchiveFormatter)
        ensures
            !r.inside_archive,
            !r.inside_card,
            r.indent == 0,
    {
        ArchiveFormatter { inside_archive: false, inside_card: false, indent: 0 }
    }

    /// An object opens: the root with `{` and a newline, deepening the
    /// indent by four; a record with the indent run and `{`; anything
    /// nested in a record with a bare brace.
    pub fn begin_object(&mut self, out: &mut String)
        requires
            !old(self).inside_archive ==> old(self).indent + 4 <= usize::MAX,
        ensures
            !old(self).inside_archive ==> final(out)@ == old(out)@ + seq!['{', '\n']
                && final(self).inside_archive && final(self).inside_card == old(self).inside_card
                && final(self).indent == old(self).indent + 4,
            old(self).inside_archive && !old(self).inside_card ==> final(out)@ == old(out)@
                + spaces(old(self).indent as nat) + seq!['{'] && final(self).inside_archive
                && final(self).inside_card && final(self).indent == old(self).indent,
            old(self).inside_archive && old(self).inside_card ==> final(out)@ == old(out)@
                + seq!['{'] && *final(self) == *old(self),
    {
        if !self.inside_archive {
            self.inside_archive = true;
            self.indent = self.indent + 4;
            out.append("{\n");
            proof {
                reveal_strlit("{\n");
                assert(out@ =~= old(out)@ + seq!['{', '\n']);
            }
        } else if !self.inside_card {
            self.inside_card = true;
            let ind = spaces_str(self.indent);
            out.append(ind.as_str());
            out.append("{");
            proof {
                reveal_strlit("{");
                assert(out@ =~= old(out)@ + spaces(old(self).indent as nat) + seq!['{']);
            }
        } else {
            out.append("{");
            proof {
                reveal_strlit("{");
                assert(out@ =~= old(out)@ + seq!['{']);
            }
        }
    }

    /// An object closes: a record with a bare brace; anything else
    /// shallows the indent by four and writes the indent run and the
    /// brace.
    pub fn end_object(&mut self, out: &mut String)
        requires
            !old(self).inside_card ==> old(self).indent >= 4,
        ensures
            old(self).inside_card ==> final(out)@ == old(out)@ + seq!['}']
                && !final(self).inside_card
                && final(self).inside_archive == old(self).inside_archive
                && final(self).indent == old(self).indent,
            !old(self).inside_card ==> final(out)@ == old(out)@
                + spaces((old(self).indent - 4) as nat) + seq!['}']
                && final(self).inside_archive == old(self).inside_archive
                && final(self).inside_card == old(self).inside_card
                && final(self).indent == old(self).indent - 4,
    {
        if self.inside_card {
            self.inside_card = false;
            out.append("}");
            proof {
                reveal_strlit("}");
                assert(out@ =~= old(out)@ + seq!['}']);
            }
        } else {
            self.indent = self.indent - 4;
            let ind = spaces_str(self.indent);
            out.append(ind.as_str());
            out.append("}");
            proof {
                reveal_strlit("}");
                assert(out@ =~= old(out)@ + spaces((old(self).indent - 4) as nat) + seq!['}']);
            }
        }
    }

    /// A key is about to be written: inside a record nothing, otherwise a
    /// newline, with a comma first for every member after the first.
    pub fn begin_object_key(&mut self, out: &mut String, first: bool)
        ensures
            *final(self) == *old(self),
            old(self).inside_card ==> final(out)@ == old(out)@,
            !old(self).inside_card && first ==> final(out)@ == old(out)@ + seq!['\n'],
            !old(self).inside_card && !first ==> final(out)@ == old(out)@ + seq![',', '\n'],
    {
        if !self.inside_card {
            if first {
                out.append("\n");
                proof {
                    reveal_strlit("\n");
                    assert(out@ =~= old(out)@ + seq!['\n']);
                }
            } else {
                out.append(",\n");
                proof {
                    reveal_strlit(",\n");
                    assert(out@ =~= old(out)@ + seq![',', '\n']);
                }
            }
        }
    }

    /// The compact separator between a key and its value.
    pub fn begin_object_value(&mut self, out: &mut String)
        ensures
            *final(self) == *old(self),
            final(out)@ == old(out)@ + seq![':'],
    {
        out.append(":");
        proof {
            reveal_strlit(":");
            assert(out@ =~= old(out)@ + seq![':']);
        }
    }

    /// A value has been written; nothing is emitted.
    pub fn end_object_value(&mut self, out: &mut String)
        ensures
            *final(self) == *old(self),
            final(out)@ == old(out)@,
    {
    }

    /// An array element is about to be written: inside a record nothing
    /// at all, otherwise a newline, with a comma first for every element
    /// after the first.
    pub fn begin_array_value(&mut self, out: &mut String, first: bool)
        ensures
            *final(self) == *old(self),
            old(self).inside_card ==> final(out)@ == old(out)@,
            !old(self).inside_card && first ==> final(out)@ == old(out)@ + seq!['\n'],
            !old(self).inside_card && !first ==> final(out)@ == old(out)@ + seq![',', '\n'],
    {
        if !self.inside_card {
            if first {
                out.append("\n");
                proof {
                    reveal_strlit("\n");
                    assert(out@ =~= old(out)@ + seq!['\n']);
                }
            } else {
                out.append(",\n");
                proof {
                    reveal_strlit(",\n");
                    assert(out@ =~= old(out)@ + seq![',', '\n']);
                }
            }
        }
    }

    /// An array element has been written; nothing is emitted.
    pub fn end_array_value(&mut self, out: &mut String)
        ensures
            *final(self) == *old(self),
            final(out)@ == old(out)@,
    {
    }

    /// An array opens with a bare bracket; the indent never changes.
    pub fn begin_array(&mut self, out: &mut String)
        ensures
            *final(self) == *old(self),
            final(out)@ == old(out)@ + seq!['['],
    {
        out.append("[");
        proof {
            reveal_strlit("[");
            assert(out@ =~= old(out)@ + seq!['[']);
        }
    }

    /// An array closes: inside a record a bare bracket, otherwise the
    /// bracket followed by a newline.
    pub fn end_array(&mut self, out: &mut String)
        ensures
            *final(self) == *old(self),
            old(self).inside_card ==> final(out)@ == old(out)@ + seq![']'],
            !old(self).inside_card ==> final(out)@ == old(out)@ + seq![']', '\n'],
    {
        if self.inside_card {
            out.append("]");
            proof {
                reveal_strlit("]");
                assert(out@ =~= old(out)@ + seq![']']);
            }
        } else {
            out.append("]\n");
            proof {
                reveal_strlit("]\n");
                assert(out@ =~= old(out)@ + seq![']', '\n']);
            }
        }
    }

    /// Writes the compact scalar `null`.
    pub fn write_null(&mut self, out: &mut String)
        ensures
            *final(self) == *old(self),
            final(out)@ == old(out)@ + seq!['n', 'u', 'l', 'l'],
    {
        out.append("null");
        proof {
            reveal_strlit("null");
            assert(out@ =~= old(out)@ + seq!['n', 'u', 'l', 'l']);
        }
    }

    /// Writes a compact boolean scalar.
    pub fn write_bool(&mut self, out: &mut String, value: bool)
        ensures
            *final(self) == *old(self),
            value ==> final(out)@ == old(out)@ + seq!['t', 'r', 'u', 'e'],
            !value ==> final(out)@ == old(out)@ + seq!['f', 'a', 'l', 's', 'e'],
    {
        if value {
            out.append("true");
            proof {
                reveal_strlit("true");
                assert(out@ =~= old(out)@ + seq!['t', 'r', 'u', 'e']);
            }
        } else {
            out.append("false");
            proof {
                reveal_strlit("false");
                assert(out@ =~= old(out)@ + seq!['f', 'a', 'l', 's', 'e']);
            }
        }
    }

    /// Writes a compact unsigned integer scalar in decimal.
    pub fn write_u64(&mut self, out: &mut String, value: u64)
        ensures
            *final(self) == *old(self),
            final(out)@ == old(out)@ + dec_rep(value as nat),
    {
        let digits = u64_to_dec(value);
        out.append(digits.as_str());
    }
}

} // verus!
