use vstd::prelude::*;

verus! {

broadcast use vstd::std_specs::hash::group_hash_axioms;

/// Which of the two buttons of a volume bar an image is for.
#[derive(Clone, Copy, Debug, PartialEq, Eq, Structural)]
pub enum BarPosition {
    Upper,
    Lower,
}

impl BarPosition {
    pub open spec fn code(self) -> int {
        match self {
            BarPosition::Upper => 0,
            BarPosition::Lower => 1,
        }
    }

    /// The position's name, as it is shown.
    pub fn label(&self) -> (r: String)
        ensures
            r@ == match *self {
                BarPosition::Upper => "Upper"@,
                BarPosition::Lower => "Lower"@,
            },
    {
        match self {
            BarPosition::Upper => String::from_str("Upper"),
            BarPosition::Lower => String::from_str("Lower"),
        }
    }
}

/// Bar images are cached per tenth of a percent, rounded half up.
pub open spec fn cache_key(vol_percent: u32, position: BarPosition) -> int {
    ((vol_percent as int + 50) / 100) * 2 + position.code()
}

pub fn generate_cache_key(vol_percent: u32, position: BarPosition) -> (r: u64)
    ensures
        r == cache_key(vol_percent, position),
{
    let tenths: u64 = (vol_percent as u64 + 50) / 100;
    match position {
        BarPosition::Upper => tenths * 2,
        BarPosition::Lower => tenths * 2 + 1,
    }
}

/// Rendered bar images as data URIs, by cache key.
pub struct VolumeBarCache {
    pub entries: std::collections::HashMap<u64, String>,
}

impl VolumeBarCache {
    pub fn new() -> (r: VolumeBarCache)
        ensures
            r.entries@ == Map::<u64, String>::empty(),
    {
        VolumeBarCache { entries: std::collections::HashMap::new() }
    }

    pub fn set_cached_value(&mut self, key: u64, value: String)
        ensures
            final(self).entries@ == old(self).entries@.insert(key, value),
    {
        self.entries.insert(key, value);
    }

    pub fn get_cached_value_safe(&self, key: u64) -> (r: Option<String>)
        ensures
            self.entries@.contains_key(key) ==> r == Some(self.entries@[key]),
            !self.entries@.contains_key(key) ==> r is None,
    {
        match self.entries.get(&key) {
            Some(v) => Some(v.clone()),
            None => None,
        }
    }

    /// The upper and lower bar images for a volume, when both are cached.
    pub fn cached_bar_images(&self, vol_percent: u32) -> (r: Option<(String, String)>)
        ensures
            ({
                let up = cache_key(vol_percent, BarPosition::Upper) as u64;
                let low = cache_key(vol_percent, BarPosition::Lower) as u64;
                &&& (self.entries@.contains_key(up) && self.entries@.contains_key(low)) ==> r == Some(
                    (self.entries@[up], self.entries@[low]),
                )
                &&& !(self.entries@.contains_key(up) && self.entries@.contains_key(low)) ==> r is None
            }),
    {
        let up = generate_cache_key(vol_percent, BarPosition::Upper);
        let low = generate_cache_key(vol_percent, BarPosition::Lower);
        match (self.get_cached_value_safe(up), self.get_cached_value_safe(low)) {
            (Some(u), Some(l)) => Some((u, l)),
            _ => None,
        }
    }

    /// Keeps both images of a freshly rendered bar.
    pub fn store_bar_images(&mut self, vol_percent: u32, upper: String, lower: String)
        ensures
            final(self).entries@ == old(self).entries@.insert(
                cache_key(vol_percent, BarPosition::Upper) as u64,
                upper,
            ).insert(cache_key(vol_percent, BarPosition::Lower) as u64, lower),
    {
        let up = generate_cache_key(vol_percent, BarPosition::Upper);
        let low = generate_cache_key(vol_percent, BarPosition::Lower);
        self.set_cached_value(up, upper);
        self.set_cached_value(low, lower);
    }
}

} // verus!
