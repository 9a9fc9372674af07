//! Assembling the result list: one classified entry per kept record, each
//! resolved against the run's icon cache, then ordered for display.
use vstd::prelude::*;

use crate::classify::{
    app_type_of, bundle_path, bundle_path_exec, copy_text_of, subtitle_of, title_of,
    ParsedApplication,
};
use crate::icons::{manifest_file, needs_manifest, opt_bytes, resolves, IconParser};
use crate::listing::ProcessRecord;
use crate::rank::{ranked, sort_by_type};
use crate::text::{chars_of, string_of};

verus! {

/// The ordered results of one run.
pub struct AlfredList {
    pub items: Vec<ParsedApplication>,
}

impl ProcessRecord {
    /// The manifest to read before classifying this record, or `None`
    /// where its icon is known without one.
    pub fn manifest_to_read(&self, icons: &IconParser) -> (r: Option<String>)
        ensures
            match r {
                Some(m) => needs_manifest(icons.entries(), bundle_path(self.path@)) && m@
                    == manifest_file(bundle_path(self.path@)),
                None => !needs_manifest(icons.entries(), bundle_path(self.path@)),
            },
    {
        let bundle = string_of(&bundle_path_exec(&chars_of(self.path.as_str())));
        icons.manifest_to_read(bundle.as_str())
    }
}

impl AlfredList {
    /// A list with no results.
    pub fn new() -> (r: Self)
        ensures
            r.items@.len() == 0,
    {
        AlfredList { items: Vec::new() }
    }

    /// Classifies `record` and appends the result, given the bytes of its
    /// bundle's manifest where they were read.
    pub fn add(
        &mut self,
        record: &ProcessRecord,
        icons: &mut IconParser,
        manifest: Option<&[u8]>,
    )
        requires
            old(icons).wf(),
        ensures
            final(self).items@.len() == old(self).items@.len() + 1,
            final(self).items@.take(old(self).items@.len() as int) == old(self).items@,
            ({
                let a = final(self).items@.last();
                &&& a.uid@ == record.pid@
                &&& a.arg@ == record.pid@
                &&& a.title@ == title_of(record.path@)
                &&& a.subtitle@ == subtitle_of(record.cpu@, record.path@)
                &&& a.text.copy@ == copy_text_of(record.pid@, record.cpu@, record.path@)
                &&& a.app_type == app_type_of(record.path@)
                &&& resolves(
                    *old(icons),
                    *final(icons),
                    bundle_path(record.path@),
                    opt_bytes(manifest),
                    a.icon.path@,
                )
            }),
    {
        let item = ParsedApplication::new(
            record.pid.as_str(),
            record.cpu.as_str(),
            record.path.as_str(),
            icons,
            manifest,
        );
        self.items.push(item);
        assert(self.items@.take(old(self).items@.len() as int) =~= old(self).items@);
    }

    /// The same results, applications first, then services, then
    /// executables, each group in the order in which it was added.
    pub fn ordered(self) -> (r: Self)
        ensures
            r.items@ == ranked(self.items@),
    {
        AlfredList { items: sort_by_type(self.items) }
    }
}

} // verus!
