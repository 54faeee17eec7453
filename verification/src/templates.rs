//! Standalone template-file descriptions: a set of variables and the files
//! to render with them.

use vstd::prelude::*;

use crate::error::Error;
use crate::str_map::StrMap;
use crate::template::mustache_render;
use crate::template::mustache_render_of;
use crate::template::plain_template;
use crate::template::spec_plain_template;

verus! {

/// One template file: its source file name and its target location text.
pub struct TemplateFileDesc {
    pub file: String,
    pub target: String,
}

impl TemplateFileDesc {
    /// The template's name: its source file name.
    pub fn get_name(&self) -> (r: &str)
        ensures
            r@ == self.file@,
    {
        self.file.as_str()
    }
}

/// A set of template files with the variables they are rendered with.
pub struct TemplatesDesc {
    pub vars: StrMap<String>,
    pub units: Vec<TemplateFileDesc>,
}

impl TemplatesDesc {
    /// The target location a template installs to: the target text rendered
    /// with the variables. Fails exactly when the target text is not a
    /// plain template or does not render.
    pub fn resolve_target(&self, target: &str) -> (r: Result<String, Error>)
        ensures
            (match r {
                Ok(s) => spec_plain_template(target@) && mustache_render_of(target@, self.vars@)
                    == Some(s@),
                Err(_) => !spec_plain_template(target@) || mustache_render_of(target@, self.vars@)
                    is None,
            }),
    {
        if !plain_template(target) {
            return Err(Error::Template { context: target.to_owned() });
        }
        let pairs = self.vars.pairs_cloned();
        match mustache_render(target, &pairs) {
            Some(s) => Ok(s),
            None => Err(Error::Template { context: target.to_owned() }),
        }
    }
}

} // verus!
