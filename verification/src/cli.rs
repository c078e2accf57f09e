//! The command line's decisions: the verbosity choice mapped to a log
//! level filter, and the text the info command prints for the records
//! that hold the current address. Argument parsing and printing happen
//! outside the crate.

use vstd::prelude::*;

use crate::models::DNSRecord;
use crate::models::DNSRecordV;

verus! {

/// `n` spaces.
pub open spec fn space_seq(n: int) -> Seq<char>
    decreases n,
{
    if n <= 0 {
        Seq::<char>::empty()
    } else {
        space_seq(n - 1) + seq![' ']
    }
}

/// `l` padded with spaces to at least six characters.
pub open spec fn pad6(l: Seq<char>) -> Seq<char> {
    if l.len() >= 6 {
        l
    } else {
        l + space_seq(6 - l.len())
    }
}

/// The info line for one record: its kind, padded into a column, and its
/// name.
pub open spec fn spec_record_line(r: DNSRecordV) -> Seq<char> {
    "\n"@ + pad6(r.kind.spec_label()) + " "@ + r.name
}

/// The info command's report: a heading, then one line per affected
/// record, in store order.
pub open spec fn spec_affected_records_text(rs: Seq<DNSRecordV>) -> Seq<char>
    decreases rs.len(),
{
    if rs.len() == 0 {
        "Affected records:"@
    } else {
        spec_affected_records_text(rs.drop_last()) + spec_record_line(rs.last())
    }
}

/// Builds the info command's report for the records that hold the
/// current address.
pub fn affected_records_text(records: &Vec<DNSRecord>) -> (r: String)
    ensures
        r@ == spec_affected_records_text(records.deep_view()),
{
    let mut text = String::from_str("Affected records:");
    let mut i: usize = 0;
    while i < records.len()
        invariant
            0 <= i <= records@.len(),
            text@ == spec_affected_records_text(records.deep_view().take(i as int)),
        decreases records@.len() - i,
    {
        let ghost base = text@;
        let rec = &records[i];
        text.append("\n");
        let label = rec.kind.label();
        text.append(label);
        let mut k = label.unicode_len();
        proof {
            assert(space_seq(0) =~= Seq::<char>::empty());
            assert(text@ =~= base + "\n"@ + label@ + space_seq(k - label@.len()));
        }
        while k < 6
            invariant
                label@.len() <= k <= 6,
                text@ == base + "\n"@ + label@ + space_seq(k - label@.len()),
            decreases 6 - k,
        {
            text.append(" ");
            proof {
                reveal_strlit(" ");
                assert(" "@ =~= seq![' ']);
                assert(text@ =~= base + "\n"@ + label@ + space_seq(k + 1 - label@.len()));
            }
            k += 1;
        }
        proof {
            assert(text@ =~= base + "\n"@ + pad6(rec.kind.spec_label()));
        }
        text.append(" ");
        text.append(rec.name.as_str());
        proof {
            let dv = records.deep_view();
            assert(dv.take(i as int + 1).drop_last() =~= dv.take(i as int));
            assert(dv.take(i as int + 1).last() == dv[i as int]);
            assert(text@ =~= spec_affected_records_text(dv.take(i as int + 1)));
        }
        i += 1;
    }
    proof {
        assert(records.deep_view().take(i as int) =~= records.deep_view());
    }
    text
}

/// The verbosity choices the command line offers.
#[derive(Clone, Copy, Debug, PartialEq, Eq, Structural)]
pub enum LevelFilterArgument {
    Off,
    Error,
    Warn,
    Info,
    Debug,
    Trace,
}

/// A log level filter, from silence to full tracing.
#[derive(Clone, Copy, Debug, PartialEq, Eq, Structural)]
pub enum LogLevelFilter {
    Off,
    Error,
    Warn,
    Info,
    Debug,
    Trace,
}

impl LevelFilterArgument {
    /// The filter a verbosity choice selects.
    pub open spec fn spec_level_filter(self) -> LogLevelFilter {
        match self {
            LevelFilterArgument::Off => LogLevelFilter::Off,
            LevelFilterArgument::Error => LogLevelFilter::Error,
            LevelFilterArgument::Warn => LogLevelFilter::Warn,
            LevelFilterArgument::Info => LogLevelFilter::Info,
            LevelFilterArgument::Debug => LogLevelFilter::Debug,
            LevelFilterArgument::Trace => LogLevelFilter::Trace,
        }
    }

    /// The filter this verbosity choice selects.
    pub fn level_filter(&self) -> (r: LogLevelFilter)
        ensures
            r == self.spec_level_filter(),
    {
        match self {
            LevelFilterArgument::Off => LogLevelFilter::Off,
            LevelFilterArgument::Error => LogLevelFilter::Error,
            LevelFilterArgument::Warn => LogLevelFilter::Warn,
            LevelFilterArgument::Info => LogLevelFilter::Info,
            LevelFilterArgument::Debug => LogLevelFilter::Debug,
            LevelFilterArgument::Trace => LogLevelFilter::Trace,
        }
    }
}

} // verus!
