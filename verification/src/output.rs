//! Output sinks: where `print` and similar operations send their text.
//!
//! Sinks make output injectable: a program can print into a buffer that a
//! test reads back, into nothing, or (outside the library) to stdout.
use vstd::prelude::*;
use crate::span::Span;
use crate::text::push_char;

verus! {

/// A destination for text produced while a program runs.
pub trait OutputSink {
    /// Sends one piece of output, with the source span that produced it.
    fn emit(&mut self, text: &str, span: Option<&Span>);
}

/// A sink that drops everything it is given.
pub struct NullSink;

impl OutputSink for NullSink {
    fn emit(&mut self, text: &str, span: Option<&Span>) {
    }
}

/// The buffer's text after emitting `text`: pieces are joined by a newline.
pub open spec fn line_joined(buffer: Seq<char>, text: Seq<char>) -> Seq<char> {
    if buffer.len() == 0 { text } else { buffer.push('\n') + text }
}

/// Collects output into a string, one emitted piece per line.
pub struct OutputBuffer {
    pub buffer: String,
}

impl OutputBuffer {
    /// An empty buffer.
    pub fn new() -> (r: Self)
        ensures
            r.buffer@ == Seq::<char>::empty(),
    {
        OutputBuffer { buffer: String::new() }
    }

    /// The text collected so far.
    pub fn as_str(&self) -> (r: &str)
        ensures
            r@ == self.buffer@,
    {
        self.buffer.as_str()
    }
}

impl Default for OutputBuffer {
    fn default() -> (r: Self)
        ensures
            r.buffer@ == Seq::<char>::empty(),
    {
        OutputBuffer::new()
    }
}

impl OutputSink for OutputBuffer {
    fn emit(&mut self, text: &str, span: Option<&Span>)
        ensures
            final(self).buffer@ == line_joined(old(self).buffer@, text@),
    {
        let mut b = String::new();
        std::mem::swap(&mut b, &mut self.buffer);
        if !b.as_str().is_empty() {
            push_char(&mut b, '\n');
        }
        b.append(text);
        self.buffer = b;
    }
}

/// Collects output into a string, pieces written back to back.
pub struct EngineOutputBuffer {
    pub buffer: String,
}

impl EngineOutputBuffer {
    /// An empty buffer.
    pub fn new() -> (r: Self)
        ensures
            r.buffer@ == Seq::<char>::empty(),
    {
        EngineOutputBuffer { buffer: String::new() }
    }

    /// The text collected so far.
    pub fn as_str(&self) -> (r: &str)
        ensures
            r@ == self.buffer@,
    {
        self.buffer.as_str()
    }
}

impl Default for EngineOutputBuffer {
    fn default() -> (r: Self)
        ensures
            r.buffer@ == Seq::<char>::empty(),
    {
        EngineOutputBuffer::new()
    }
}

impl OutputSink for EngineOutputBuffer {
    fn emit(&mut self, text: &str, span: Option<&Span>)
        ensures
            final(self).buffer@ == old(self).buffer@ + text@,
    {
        let mut b = String::new();
        std::mem::swap(&mut b, &mut self.buffer);
        b.append(text);
        self.buffer = b;
    }
}

} // verus!
