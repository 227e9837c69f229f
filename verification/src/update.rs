//! What the control surface is told about updates of the application.

use vstd::prelude::*;

verus! {

/// Whether an update is available, and which.
#[derive(Debug)]
pub struct UpdateInfo {
    pub available: bool,
    pub version: String,
    pub current_version: String,
    pub body: String,
    pub date: Option<String>,
}

/// What an [`UpdateInfo`] is, as mathematics.
pub struct UpdateInfoView {
    pub available: bool,
    pub version: Seq<char>,
    pub current_version: Seq<char>,
    pub body: Seq<char>,
    pub date: Option<Seq<char>>,
}

impl View for UpdateInfo {
    type V = UpdateInfoView;

    open spec fn view(&self) -> UpdateInfoView {
        UpdateInfoView {
            available: self.available,
            version: self.version@,
            current_version: self.current_version@,
            body: self.body@,
            date: match self.date {
                Some(d) => Some(d@),
                None => None,
            },
        }
    }
}

impl UpdateInfo {
    /// What is told when the updater has found a newer version. Release
    /// notes that are missing count as empty.
    pub fn found(
        version: String,
        current_version: String,
        body: Option<String>,
        date: Option<String>,
    ) -> (r: UpdateInfo)
        ensures
            r@ == (UpdateInfoView {
                available: true,
                version: version@,
                current_version: current_version@,
                body: match body {
                    Some(b) => b@,
                    None => Seq::empty(),
                },
                date: match date {
                    Some(d) => Some(d@),
                    None => None,
                },
            }),
    {
        let body = match body {
            Some(b) => b,
            None => String::new(),
        };
        UpdateInfo { available: true, version, current_version, body, date }
    }

    /// What is told when the updater has found nothing newer: the version
    /// that runs is the latest.
    pub fn up_to_date(current_version: String) -> (r: UpdateInfo)
        ensures
            r@ == (UpdateInfoView {
                available: false,
                version: current_version@,
                current_version: current_version@,
                body: "You are using the latest version"@,
                date: None,
            }),
    {
        UpdateInfo {
            available: false,
            version: current_version.clone(),
            current_version,
            body: "You are using the latest version".to_owned(),
            date: None,
        }
    }
}

} // verus!
