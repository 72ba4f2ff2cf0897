//! The filter document that tells the engine what to evaluate.

use crate::error::EngineError;
use crate::model::texts;
use crate::text::{chars_of, find_char, first_at};
use vstd::prelude::*;
use vstd::string::*;

verus! {

/// What to evaluate for one package.
#[derive(Clone, Debug, PartialEq, Eq)]
pub struct FilterOperator {
    /// The package.
    pub name: String,
    /// The channel to evaluate; `None` and `"all"` ask for every channel.
    pub channel: Option<String>,
    /// The version to upgrade from; `None` leaves the start unbounded.
    pub from_version: Option<String>,
}

/// The filter document.
#[derive(Clone, Debug, PartialEq, Eq)]
pub struct FilterConfig {
    pub kind: String,
    pub api_version: String,
    /// Image references of the catalogs to work on.
    pub catalogs: Vec<String>,
    /// The packages to evaluate; `None` asks for all of them.
    pub operators: Option<Vec<FilterOperator>>,
}

/// What a [`FilterOperator`] stands for.
pub struct FilterView {
    pub name: Seq<char>,
    pub channel: Option<Seq<char>>,
    pub from_version: Option<Seq<char>>,
}

impl View for FilterOperator {
    type V = FilterView;

    open spec fn view(&self) -> FilterView {
        FilterView {
            name: self.name@,
            channel: match self.channel {
                Some(c) => Some(c@),
                None => None,
            },
            from_version: match self.from_version {
                Some(v) => Some(v@),
                None => None,
            },
        }
    }
}

/// The views of a list of filters, in order.
pub open spec fn filter_views(v: Seq<FilterOperator>) -> Seq<FilterView> {
    v.map_values(|f: FilterOperator| f@)
}

/// The name that selects every channel.
pub open spec fn every_channel() -> Seq<char> {
    "all"@
}

/// The text that stands for an unknown value in reports.
pub open spec fn unknown_mark() -> Seq<char> {
    "?"@
}

impl FilterOperator {
    /// The filter's channel, `"all"` where it names none.
    pub open spec fn channel_text(&self) -> Seq<char> {
        match self.channel {
            Some(c) => c@,
            None => every_channel(),
        }
    }

    /// The filter selects the channel of that name.
    pub open spec fn selects_text(&self, channel: Seq<char>) -> bool {
        self.channel_text() == every_channel() || self.channel_text() == channel
    }

    /// The token that opens the upgrade path: the starting version as the
    /// filter writes it, `"?"` where it gives none.
    pub open spec fn start_text(&self) -> Seq<char> {
        match self.from_version {
            Some(v) => v@,
            None => unknown_mark(),
        }
    }

    /// A copy of this filter.
    pub fn duplicate(&self) -> (r: FilterOperator)
        ensures
            r@ == self@,
    {
        FilterOperator {
            name: self.name.clone(),
            channel: match &self.channel {
                Some(c) => Some(c.clone()),
                None => None,
            },
            from_version: match &self.from_version {
                Some(v) => Some(v.clone()),
                None => None,
            },
        }
    }

    /// Tells whether the filter selects the channel of that name.
    pub fn selects(&self, channel: &str) -> (r: bool)
        ensures
            r == self.selects_text(channel@),
    {
        match &self.channel {
            None => true,
            Some(c) => {
                let all = "all".to_owned();
                let wanted = channel.to_owned();
                *c == all || *c == wanted
            },
        }
    }

    /// The token that opens the upgrade path.
    pub fn start_token(&self) -> (r: String)
        ensures
            r@ == self.start_text(),
    {
        match &self.from_version {
            Some(v) => v.clone(),
            None => "?".to_owned(),
        }
    }
}

/// How much of the report is shown.
#[derive(Clone, Copy, Debug, PartialEq, Eq, Structural)]
pub enum LogLevel {
    Info,
    Debug,
    Trace,
}

/// The level that a name asks for: `debug` and `trace` by their names,
/// `info` for every other name.
pub open spec fn level_named(name: Seq<char>) -> LogLevel {
    if name == "debug"@ {
        LogLevel::Debug
    } else if name == "trace"@ {
        LogLevel::Trace
    } else {
        LogLevel::Info
    }
}

/// The level that a name asks for.
pub fn log_level(name: &str) -> (r: LogLevel)
    ensures
        r == level_named(name@),
{
    let wanted = name.to_owned();
    if wanted == "debug".to_owned() {
        LogLevel::Debug
    } else if wanted == "trace".to_owned() {
        LogLevel::Trace
    } else {
        LogLevel::Info
    }
}

/// The base of an image reference: what stands before its first colon.
pub open spec fn image_base(reference: Seq<char>) -> Seq<char> {
    reference.take(first_at(reference, ':', 0))
}

/// All catalogs name the same base image.
pub open spec fn same_base_image(catalogs: Seq<Seq<char>>) -> bool {
    forall|i: int, j: int|
        0 <= i < catalogs.len() && 0 <= j < catalogs.len() ==> image_base(#[trigger] catalogs[i])
            == image_base(#[trigger] catalogs[j])
}

/// Checks that the catalogs differ in their versions only.  An empty list
/// is in order.
pub fn check_catalog_images(catalogs: &Vec<String>) -> (r: Result<(), EngineError>)
    ensures
        match r {
            Ok(_) => same_base_image(texts(catalogs@)),
            Err(e) => e == EngineError::InconsistentCatalogSet && !same_base_image(
                texts(catalogs@),
            ),
        },
{
    if catalogs.len() == 0 {
        return Ok(());
    }
    let ghost all = texts(catalogs@);
    let first_chars = chars_of(catalogs[0].as_str());
    let first_end: usize = find_char(&first_chars, ':', 0);
    let first = catalogs[0].as_str().substring_char(0, first_end).to_owned();
    assert(first@ == image_base(all[0]));
    let mut i: usize = 1;
    while i < catalogs.len()
        invariant
            1 <= i <= catalogs.len(),
            all == texts(catalogs@),
            first@ == image_base(all[0]),
            forall|j: int| 0 <= j < i ==> image_base(#[trigger] all[j]) == first@,
        decreases catalogs.len() - i,
    {
        let chars = chars_of(catalogs[i].as_str());
        let end: usize = find_char(&chars, ':', 0);
        let base = catalogs[i].as_str().substring_char(0, end).to_owned();
        assert(base@ == image_base(all[i as int]));
        if base != first {
            return Err(EngineError::InconsistentCatalogSet);
        }
        i += 1;
    }
    Ok(())
}

} // verus!
