//! Finding the coverage summary of a report.
use vstd::prelude::*;
use crate::coverage::Coverage;
use crate::events::{Attribute, Event, events_of, read_events};
use crate::rate::{parse_rate, rate_of};

verus! {

/// A `line-rate` or `branch-rate` attribute whose value is not a decimal rate.
#[derive(Debug)]
pub struct RateError {
    pub value: String,
}

/// Applies one attribute of the `coverage` element to the snapshot read so far.
pub open spec fn apply_attribute(c: Coverage, a: Attribute) -> Result<Coverage, RateError> {
    if a.name@ == "line-rate"@ {
        match rate_of(a.value@) {
            Some(v) => Ok(Coverage { line: v, ..c }),
            None => Err(RateError { value: a.value }),
        }
    } else if a.name@ == "branch-rate"@ {
        match rate_of(a.value@) {
            Some(v) => Ok(Coverage { branch: v, ..c }),
            None => Err(RateError { value: a.value }),
        }
    } else {
        Ok(c)
    }
}

/// The snapshot that the attributes of a `coverage` element give, read in
/// order from a zero snapshot; other attributes are ignored.
pub open spec fn attributes_coverage(attrs: Seq<Attribute>) -> Result<Coverage, RateError>
    decreases attrs.len(),
{
    if attrs.len() == 0 {
        Ok(Coverage::zero())
    } else {
        match attributes_coverage(attrs.drop_last()) {
            Ok(c) => apply_attribute(c, attrs.last()),
            Err(e) => Err(e),
        }
    }
}

/// What a stream of events holds: the snapshot of the first `coverage` start
/// tag; `None` when the document breaks off before one; a zero snapshot when
/// it ends without one.
pub open spec fn scan(evs: Seq<Event>) -> Result<Option<Coverage>, RateError>
    decreases evs.len(),
{
    if evs.len() == 0 {
        Ok(Some(Coverage::zero()))
    } else {
        match evs[0] {
            Event::Start { name, attributes } => if name@ == "coverage"@ {
                match attributes_coverage(attributes@) {
                    Ok(c) => Ok(Some(c)),
                    Err(e) => Err(e),
                }
            } else {
                scan(evs.skip(1))
            },
            Event::Fault => Ok(None),
            Event::Other => scan(evs.skip(1)),
        }
    }
}

/// What a document that may be missing holds.
pub open spec fn extracted(doc: Option<&[u8]>) -> Result<Option<Coverage>, RateError> {
    match doc {
        None => Ok(None),
        Some(d) => scan(events_of(d@)),
    }
}

proof fn lemma_scan_skip(evs: Seq<Event>, i: int)
    requires
        0 <= i < evs.len(),
        !(evs[i] is Fault),
        !(evs[i] matches Event::Start { name, .. } && name@ == "coverage"@),
    ensures
        scan(evs.skip(i)) == scan(evs.skip(i + 1)),
{
    assert(evs.skip(i)[0] == evs[i]);
    assert(evs.skip(i).skip(1) =~= evs.skip(i + 1));
}

/// The snapshot that the attributes of a `coverage` start tag give.
pub fn coverage_of_attributes(attrs: &Vec<Attribute>) -> (r: Result<Coverage, RateError>)
    ensures
        r == attributes_coverage(attrs@),
{
    let line_key = String::from_str("line-rate");
    let branch_key = String::from_str("branch-rate");
    let mut c = Coverage { line: 0, branch: 0 };
    let mut i: usize = 0;
    while i < attrs.len()
        invariant
            i <= attrs@.len(),
            line_key@ == "line-rate"@,
            branch_key@ == "branch-rate"@,
            attributes_coverage(attrs@.take(i as int)) == Ok::<Coverage, RateError>(c),
        decreases attrs@.len() - i,
    {
        let a = &attrs[i];
        proof {
            assert(attrs@.take(i + 1).drop_last() =~= attrs@.take(i as int));
            assert(attrs@.take(i + 1).last() == attrs@[i as int]);
        }
        if a.name == line_key {
            match parse_rate(a.value.as_str()) {
                Some(v) => {
                    c = Coverage { line: v, ..c };
                },
                None => {
                    proof {
                        assert(attrs@.take(attrs@.len() as int) =~= attrs@);
                        lemma_error_sticks(attrs@, i as int + 1);
                    }
                    return Err(RateError { value: a.value.clone() });
                },
            }
        } else if a.name == branch_key {
            match parse_rate(a.value.as_str()) {
                Some(v) => {
                    c = Coverage { branch: v, ..c };
                },
                None => {
                    proof {
                        assert(attrs@.take(attrs@.len() as int) =~= attrs@);
                        lemma_error_sticks(attrs@, i as int + 1);
                    }
                    return Err(RateError { value: a.value.clone() });
                },
            }
        }
        i = i + 1;
    }
    proof {
        assert(attrs@.take(attrs@.len() as int) =~= attrs@);
    }
    Ok(c)
}

proof fn lemma_error_sticks(attrs: Seq<Attribute>, n: int)
    requires
        0 < n <= attrs.len(),
        attributes_coverage(attrs.take(n)) is Err,
    ensures
        attributes_coverage(attrs) == attributes_coverage(attrs.take(n)),
    decreases attrs.len() - n,
{
    if n < attrs.len() {
        assert(attrs.take(n + 1).drop_last() =~= attrs.take(n));
        lemma_error_sticks(attrs, n + 1);
    } else {
        assert(attrs.take(n) =~= attrs);
    }
}

/// The first `coverage` start tag of a stream of events, read into a snapshot.
pub fn coverage_of_events(evs: &Vec<Event>) -> (r: Result<Option<Coverage>, RateError>)
    ensures
        r == scan(evs@),
{
    let tag = String::from_str("coverage");
    let mut i: usize = 0;
    assert(evs@.skip(0) =~= evs@);
    while i < evs.len()
        invariant
            i <= evs@.len(),
            tag@ == "coverage"@,
            scan(evs@.skip(i as int)) == scan(evs@),
        decreases evs@.len() - i,
    {
        proof {
            assert(evs@.skip(i as int)[0] == evs@[i as int]);
        }
        match &evs[i] {
            Event::Start { name, attributes } => {
                if *name == tag {
                    return match coverage_of_attributes(attributes) {
                        Ok(c) => Ok(Some(c)),
                        Err(e) => Err(e),
                    };
                }
            },
            Event::Fault => {
                return Ok(None);
            },
            Event::Other => {},
        }
        proof {
            lemma_scan_skip(evs@, i as int);
        }
        i = i + 1;
    }
    proof {
        assert(evs@.skip(i as int) =~= Seq::<Event>::empty());
    }
    Ok(Some(Coverage { line: 0, branch: 0 }))
}

/// Reads the coverage summary of a document: `Ok(None)` when the document is
/// missing or is not well-formed before its first `coverage` element.
pub fn extract(doc: Option<&[u8]>) -> (r: Result<Option<Coverage>, RateError>)
    ensures
        r == extracted(doc),
{
    match doc {
        None => Ok(None),
        Some(d) => {
            let evs = read_events(d);
            coverage_of_events(&evs)
        },
    }
}

} // verus!
