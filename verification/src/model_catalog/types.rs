//! A model as the settings screens list it.
use vstd::prelude::*;

use crate::config::Provider;

verus! {

/// A model offered by a provider.
#[derive(Debug, Clone)]
pub struct ModelInfo {
    pub id: String,
    pub display_name: String,
    pub provider: String,
    pub logo: String,
    pub installed: bool,
}

/// The abstract content of a [`ModelInfo`].
pub struct ModelInfoView {
    pub id: Seq<char>,
    pub display_name: Seq<char>,
    pub provider: Seq<char>,
    pub logo: Seq<char>,
    pub installed: bool,
}

impl View for ModelInfo {
    type V = ModelInfoView;

    open spec fn view(&self) -> ModelInfoView {
        ModelInfoView {
            id: self.id@,
            display_name: self.display_name@,
            provider: self.provider@,
            logo: self.logo@,
            installed: self.installed,
        }
    }
}

/// The views of a list of models.
pub open spec fn views(s: Seq<ModelInfo>) -> Seq<ModelInfoView> {
    s.map_values(|m: ModelInfo| m@)
}

/// The entry for model `id` of `provider`, shown as `display_name`.
pub open spec fn info_view(
    provider: Provider,
    id: Seq<char>,
    display_name: Seq<char>,
    installed: bool,
) -> ModelInfoView {
    ModelInfoView {
        id,
        display_name,
        provider: provider.label_view(),
        logo: provider.logo_view(),
        installed,
    }
}

impl ModelInfo {
    /// A copy with the same content.
    pub fn copy(&self) -> (r: ModelInfo)
        ensures
            r@ == self@,
    {
        ModelInfo {
            id: self.id.clone(),
            display_name: self.display_name.clone(),
            provider: self.provider.clone(),
            logo: self.logo.clone(),
            installed: self.installed,
        }
    }
}

/// Appends copies of `src` to `dst`.
pub fn extend_infos(dst: &mut Vec<ModelInfo>, src: &Vec<ModelInfo>)
    ensures
        views(final(dst)@) == views(old(dst)@) + views(src@),
{
    let ghost start = views(dst@);
    let mut i: usize = 0;
    while i < src.len()
        invariant
            i <= src@.len(),
            views(dst@) == start + views(src@.take(i as int)),
        decreases src.len() - i,
    {
        let ghost prev = dst@;
        let c = src[i].copy();
        dst.push(c);
        assert(views(dst@) =~= views(prev).push(src@[i as int]@));
        i = i + 1;
        assert(views(src@.take(i as int)) =~= views(src@.take(i - 1)).push(src@[i - 1]@));
        assert(views(dst@) =~= start + views(src@.take(i as int)));
    }
    assert(src@.take(src@.len() as int) =~= src@);
}

} // verus!
