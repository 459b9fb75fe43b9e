//! Delayed work of pickers: highlighting previews and asking for items.
use crate::paths::path_parts;
use crate::paths::same_path;
use crate::strings::str_eq;
use crate::strings::text_opt;
use vstd::prelude::*;
use vstd::string::*;

verus! {

/// Highlights the preview of a file once the picker stays on it. Points in time are in
/// milliseconds.
#[derive(Debug)]
pub struct PreviewHighlightHandler {
    /// The file whose preview is to be highlighted.
    pub trigger: Option<String>,
}

impl Default for PreviewHighlightHandler {
    fn default() -> (r: Self)
        ensures
            r.trigger is None,
    {
        PreviewHighlightHandler { trigger: None }
    }
}

/// What is known of the preview of a file.
#[derive(Debug, Clone, Copy, PartialEq, Eq, Structural)]
pub enum CachedPreview {
    /// There is none, or none of a document.
    NoDocument,
    /// A document, whether it is highlighted, and whether its language is known.
    Document { has_syntax: bool, has_language: bool },
}

impl PreviewHighlightHandler {
    /// Takes the file that the picker is on, and gives when the preview is to be highlighted. While
    /// the picker stays on a file, `timeout` stays as it is.
    pub fn handle_event(&mut self, path: String, timeout: Option<u64>, now: u64) -> (r: Option<u64>)
        requires
            now + 150 <= u64::MAX,
        ensures
            if old(self).trigger matches Some(t) && path_parts(t@) == path_parts(path@) {
                *final(self) == *old(self) && r == timeout
            } else {
                text_opt(final(self).trigger) == Some(path@) && r == Some((now + 150) as u64)
            },
    {
        let same = match &self.trigger {
            Some(t) => same_path(t.as_str(), path.as_str()),
            None => false,
        };
        if same {
            timeout
        } else {
            self.trigger = Some(path);
            Some(now + 150)
        }
    }

    /// Takes the file whose preview is to be highlighted.
    pub fn finish_debounce(&mut self) -> (r: Option<String>)
        ensures
            r == old(self).trigger,
            final(self).trigger is None,
    {
        self.trigger.take()
    }
}

/// Whether the preview of a file is to be highlighted: it is that of a document in a known language
/// that is not highlighted yet.
pub fn needs_highlighting(preview: CachedPreview) -> (r: bool)
    ensures
        r == (preview == CachedPreview::Document { has_syntax: false, has_language: true }),
{
    match preview {
        CachedPreview::Document { has_syntax, has_language } => !has_syntax && has_language,
        CachedPreview::NoDocument => false,
    }
}

/// Whether the highlighting that was computed for a file is put into its preview: the picker is
/// still open, and has a document for the file.
pub fn takes_highlighting(picker_open: bool, preview: CachedPreview) -> (r: bool)
    ensures
        r == (picker_open && preview is Document),
{
    match preview {
        CachedPreview::Document { .. } => picker_open,
        CachedPreview::NoDocument => false,
    }
}

/// A change of the query of a picker.
#[derive(Debug)]
pub struct DynamicQueryChange {
    pub query: String,
    pub is_paste: bool,
}

/// Asks for items once the query of a picker stays the same. Points in time are in milliseconds.
#[derive(Debug)]
pub struct DynamicQueryHandler {
    /// How long the query has to stay the same.
    pub debounce: u64,
    /// The query that was asked last.
    pub last_query: String,
    /// The query that is to be asked.
    pub query: Option<String>,
}

/// What follows a change of the query.
#[derive(Debug)]
pub enum QueryStep {
    /// Nothing is asked.
    Nothing,
    /// Ask at once.
    Ask(String),
    /// Ask at a point in time.
    Wait(u64),
}

impl DynamicQueryHandler {
    pub fn new(duration_ms: Option<u64>) -> (r: Self)
        ensures
            r.debounce == match duration_ms {
                Some(d) => d,
                None => 100,
            },
            r.last_query@ == Seq::<char>::empty(),
            r.query is None,
    {
        DynamicQueryHandler {
            debounce: match duration_ms {
                Some(d) => d,
                None => 100,
            },
            last_query: String::new(),
            query: None,
        }
    }

    /// Takes a change of the query. Going back to the query that was asked last asks nothing; a
    /// pasted query is asked at once.
    pub fn handle_event(&mut self, change: DynamicQueryChange, now: u64) -> (r: QueryStep)
        requires
            now + old(self).debounce <= u64::MAX,
        ensures
            final(self).debounce == old(self).debounce,
            if change.query@ == old(self).last_query@ {
                &&& r is Nothing
                &&& final(self).query is None
                &&& final(self).last_query@ == old(self).last_query@
            } else if change.is_paste {
                &&& r matches QueryStep::Ask(q) && q@ == change.query@
                &&& final(self).query is None
                &&& final(self).last_query@ == change.query@
            } else {
                &&& r == QueryStep::Wait((now + old(self).debounce) as u64)
                &&& text_opt(final(self).query) == Some(change.query@)
                &&& final(self).last_query@ == old(self).last_query@
            },
    {
        if str_eq(change.query.as_str(), self.last_query.as_str()) {
            self.query = None;
            return QueryStep::Nothing;
        }
        self.query = Some(change.query);
        if change.is_paste {
            match self.finish_debounce() {
                Some(q) => QueryStep::Ask(q),
                None => QueryStep::Nothing,
            }
        } else {
            QueryStep::Wait(now + self.debounce)
        }
    }

    /// Takes the query that is to be asked.
    pub fn finish_debounce(&mut self) -> (r: Option<String>)
        ensures
            final(self).debounce == old(self).debounce,
            final(self).query is None,
            text_opt(r) == text_opt(old(self).query),
            final(self).last_query@ == match old(self).query {
                Some(q) => q@,
                None => old(self).last_query@,
            },
    {
        match self.query.take() {
            Some(q) => {
                self.last_query = q.clone();
                Some(q)
            },
            None => None,
        }
    }
}

} // verus!
