//! Inspection of a loaded artifact: a summary of one of its entries.

use vstd::prelude::*;
use vstd::string::*;
use crate::accumulator::{lemma_place_among_distinct, Accumulator};
use crate::text::{byte_list, byte_list_text, decimal, decimal_text};

verus! {

/// The number of bytes that a sample shows at most.
pub const SAMPLE_LIMIT: usize = 10;

/// The sample of a payload: its first bytes, up to the limit.
pub open spec fn sample_of(payload: Seq<u8>) -> Seq<u8> {
    if payload.len() <= SAMPLE_LIMIT {
        payload
    } else {
        payload.take(SAMPLE_LIMIT as int)
    }
}

/// What inspection found in an accumulator.
#[derive(Debug, PartialEq, Eq)]
pub enum InspectReport {
    /// Nothing is stored.
    Empty,
    /// One entry: its URL, the length of its payload, and a sample of it.
    Entry { url: String, size: usize, sample: Vec<u8> },
}

/// The line shown for an accumulator that holds nothing.
pub open spec fn empty_line() -> Seq<char> {
    "No images found in the file."@
}

/// The line that shows the URL of an entry.
pub open spec fn url_line(url: Seq<char>) -> Seq<char> {
    "URL: "@ + url
}

/// The line that shows the length of a payload.
pub open spec fn size_line(size: nat) -> Seq<char> {
    "Image size (bytes): "@ + decimal(size)
}

/// The line that shows a sample of a payload.
pub open spec fn sample_line(sample: Seq<u8>) -> Seq<char> {
    "Image data sample: "@ + byte_list(sample)
}

impl InspectReport {
    /// The lines that show the report.
    pub open spec fn shown(&self) -> Seq<Seq<char>> {
        match self {
            InspectReport::Empty => seq![empty_line()],
            InspectReport::Entry { url, size, sample } => seq![
                url_line(url@),
                size_line(*size as nat),
                sample_line(sample@),
            ],
        }
    }

    /// Renders the report: one line for an empty accumulator, else the URL,
    /// the payload's length and the sample, a line each.
    pub fn lines(&self) -> (lines: Vec<String>)
        ensures
            lines.deep_view() == self.shown(),
    {
        let mut lines: Vec<String> = Vec::new();
        match self {
            InspectReport::Empty => {
                lines.push(String::from_str("No images found in the file."));
            },
            InspectReport::Entry { url, size, sample } => {
                let mut first = String::from_str("URL: ");
                first.append(url.as_str());
                let mut second = String::from_str("Image size (bytes): ");
                let digits = decimal_text(*size as u64);
                second.append(digits.as_str());
                let mut third = String::from_str("Image data sample: ");
                let bytes = byte_list_text(sample.as_slice());
                third.append(bytes.as_str());
                lines.push(first);
                lines.push(second);
                lines.push(third);
            },
        }
        lines
    }
}

impl Accumulator {
    /// Summarizes the first entry: its URL, the length of its payload and the
    /// sample of it. An accumulator that holds nothing gives the empty report.
    pub fn inspect(&self) -> (report: InspectReport)
        requires
            self.well_formed(),
        ensures
            match report {
                InspectReport::Empty => self.entries().len() == 0,
                InspectReport::Entry { url, size, sample } => {
                    &&& self.entries().len() > 0
                    &&& url@ == self.entries()[0].0
                    &&& size == self.entries()[0].1.len()
                    &&& sample@ == sample_of(self.entries()[0].1)
                    &&& self@.contains_key(url@)
                    &&& self@[url@] == self.entries()[0].1
                },
            },
    {
        let pairs = self.as_pairs();
        if pairs.len() == 0 {
            return InspectReport::Empty;
        }
        let url = pairs[0].0.clone();
        let payload = &pairs[0].1;
        proof {
            lemma_place_among_distinct(self.entries(), url@, 0);
        }
        let shown: usize = if payload.len() <= SAMPLE_LIMIT {
            payload.len()
        } else {
            SAMPLE_LIMIT
        };
        let mut sample: Vec<u8> = Vec::new();
        let mut i: usize = 0;
        while i < shown
            invariant
                i <= shown <= payload@.len(),
                sample@ == payload@.take(i as int),
            decreases shown - i,
        {
            sample.push(payload[i]);
            i = i + 1;
        }
        InspectReport::Entry { url, size: payload.len(), sample }
    }
}

} // verus!
