pub mod analyzer;
pub mod check;
pub mod compile;
pub mod dom;
pub mod error;
pub mod laws;
pub mod pattern;
pub mod tagged;
pub mod tech;
pub mod text;
pub mod version;

pub use analyzer::{WappAnalyzer, WappCheckResult, WappTechCategory, WappTechGroup};
pub use check::{aggregate_outcomes, check_keyed, check_rules, WappTechCheckResult};
pub use compile::{
    compile_rule, compile_rule_map, compile_rules, compile_tagged_strings, DomSource,
};
pub use dom::{check_dom_rules, CssSelector, Document, Element, WappTechDomPatttern};
pub use error::{ParseError, ParseErrorModel};
pub use laws::{
    law_categories_are_independent, law_full_confidence_short_circuits,
    law_partial_confidence_ignores_order, law_partial_confidences_take_the_maximum,
    law_unknown_directive_is_rejected,
};
pub use pattern::Pattern;
pub use tagged::{parse_tags, Tagged};
pub use tech::{WappPage, WappTech, WappTechPricing, WappTechSource};
pub use version::{WappTechVersionPattern, WappTechVersionValue};
