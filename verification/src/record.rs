//! The record of one ZIP code, and its mathematical model.

use vstd::prelude::*;

verus! {

/// The classification of a ZIP code.
#[derive(Clone, Copy, PartialEq, Eq, Structural, Debug)]
pub enum Type {
    /// Typical ZIP code (does not fall under any other type).
    Standard,
    /// Used only for PO Boxes at a given facility, not for any other type of delivery.
    PoBox,
    /// Assigned to a single high-volume address.
    Unique,
    /// Used to route mail for the U.S. military.
    Military,
}

/// One entry of the primary table: the data stored for one ZIP code.
///
/// The coordinate fields keep the decimal text of the source cells; they
/// are present only when both cells of the source row are non-empty.
pub struct Record {
    /// The 5-digit ZIP code.
    pub zip_code: String,
    /// The ZIP code classification.
    pub zip_code_type: Type,
    /// The city to which the ZIP code belongs, title-cased.
    pub city: String,
    /// The state to which the ZIP code belongs (two letter abbreviation).
    pub state: String,
    /// Latitude and longitude, as the decimal text of the source cells.
    pub coordinates: Option<(String, String)>,
    /// If `true`, the ZIP code is historical; if `false`, it is current.
    pub is_decommissioned: bool,
    /// The number of individual tax returns filed.
    pub tax_returns_filed: Option<u64>,
    /// The estimated population of the area of the ZIP code.
    pub estimated_population: Option<u64>,
    /// Total yearly wages of the population.
    pub total_wages: Option<u64>,
}

/// The model of a record: each text field as its character sequence.
pub struct RecordModel {
    pub zip_code: Seq<char>,
    pub zip_code_type: Type,
    pub city: Seq<char>,
    pub state: Seq<char>,
    pub coordinates: Option<(Seq<char>, Seq<char>)>,
    pub is_decommissioned: bool,
    pub tax_returns_filed: Option<u64>,
    pub estimated_population: Option<u64>,
    pub total_wages: Option<u64>,
}

impl View for Record {
    type V = RecordModel;

    open spec fn view(&self) -> RecordModel {
        RecordModel {
            zip_code: self.zip_code@,
            zip_code_type: self.zip_code_type,
            city: self.city@,
            state: self.state@,
            coordinates: match self.coordinates {
                Some((lat, long)) => Some((lat@, long@)),
                None => None,
            },
            is_decommissioned: self.is_decommissioned,
            tax_returns_filed: self.tax_returns_filed,
            estimated_population: self.estimated_population,
            total_wages: self.total_wages,
        }
    }
}

} // verus!
