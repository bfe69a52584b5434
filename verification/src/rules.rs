//! The Rules page's model: the rule list the core reports, whether a fetch
//! is under way or failed, and what the page shows for each state.

use vstd::prelude::*;

use crate::text::{dec, push_str, string_of};

verus! {

/// One routing rule as the core lists it.
#[derive(Debug, Clone)]
pub struct Rule {
    pub index: u32,
    pub rule_type: String,
    pub payload: String,
    pub proxy: String,
}

/// The page's state: the last rules fetched, whether a fetch is under way,
/// and the error of the last fetch, if it failed.
#[derive(Debug, Clone)]
pub struct RulesState {
    pub rules: Vec<Rule>,
    pub loading: bool,
    pub error: Option<String>,
}

/// What the body of the page shows.
#[derive(Debug, Clone)]
pub enum RulesBody {
    /// A fetch is under way and nothing was fetched yet.
    Loading,
    /// The last fetch failed, with this message.
    Failed(String),
    /// The rule list.
    List,
}

/// The body shown for a state: loading while a fetch runs with no rules yet,
/// else the error of a failed fetch, else the list.
pub open spec fn body_of(s: RulesState) -> RulesBody {
    if s.loading && s.rules@.len() == 0 {
        RulesBody::Loading
    } else {
        match s.error {
            Some(e) => RulesBody::Failed(e),
            None => RulesBody::List,
        }
    }
}

impl RulesState {
    /// A new page: no rules, and the first fetch under way.
    pub fn new() -> (r: Self)
        ensures
            r.rules@.len() == 0,
            r.loading,
            r.error is None,
    {
        RulesState { rules: Vec::new(), loading: true, error: None }
    }

    /// A fetch starts: loading, and no error shown; the rules stay.
    pub fn begin_refresh(&mut self)
        ensures
            final(self).loading,
            final(self).error is None,
            final(self).rules == old(self).rules,
    {
        self.loading = true;
        self.error = None;
    }

    /// A fetch ended: on success its rules replace the list and the error is
    /// cleared; on failure the error is kept and the list stays.
    pub fn finish(&mut self, result: Result<Vec<Rule>, String>)
        ensures
            !final(self).loading,
            match result {
                Ok(rules) => final(self).rules == rules && final(self).error is None,
                Err(e) => final(self).rules == old(self).rules && final(self).error == Some(e),
            },
    {
        self.loading = false;
        match result {
            Ok(rules) => {
                self.rules = rules;
                self.error = None;
            },
            Err(e) => {
                self.error = Some(e);
            },
        }
    }

    /// What the body of the page shows.
    pub fn body(&self) -> (r: RulesBody)
        ensures
            r == body_of(*self),
    {
        if self.loading && self.rules.len() == 0 {
            RulesBody::Loading
        } else {
            match &self.error {
                Some(e) => RulesBody::Failed(e.clone()),
                None => RulesBody::List,
            }
        }
    }

    /// The count shown in the header: `"<n> rules"`.
    pub fn count_label(&self) -> (r: String)
        ensures
            r@ == dec(self.rules@.len()) + " rules"@,
    {
        let mut v: Vec<char> = Vec::new();
        crate::text::push_decimal(&mut v, self.rules.len() as u64);
        push_str(&mut v, " rules");
        string_of(v.as_slice())
    }
}

} // verus!
