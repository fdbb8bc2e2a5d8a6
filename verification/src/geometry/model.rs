//! Features, layers, and tiles of the decoded vector-tile model.

use vstd::prelude::*;

use crate::geometry::types::GeoProperties;
use crate::geometry::types::GeoValueV;

verus! {

/// A feature's encoded geometry, carried through transforms unchanged.
#[derive(Debug, PartialEq, Eq)]
pub struct Geometry {
    pub data: Vec<u8>,
}

impl View for Geometry {
    type V = Seq<u8>;

    open spec fn view(&self) -> Seq<u8> {
        self.data@
    }
}

impl Clone for Geometry {
    fn clone(&self) -> (r: Geometry)
        ensures
            r@ == self@,
    {
        let mut data: Vec<u8> = Vec::new();
        let mut i: usize = 0;
        while i < self.data.len()
            invariant
                i <= self.data@.len(),
                data@ == self.data@.subrange(0, i as int),
            decreases self.data@.len() - i,
        {
            data.push(self.data[i]);
            i = i + 1;
        }
        proof {
            assert(self.data@.subrange(0, self.data@.len() as int) =~= self.data@);
        }
        Geometry { data }
    }
}

/// The mathematical shape of a feature.
pub struct FeatureV {
    pub id: Option<u64>,
    pub geometry: Seq<u8>,
    pub properties: Option<Seq<(Seq<char>, GeoValueV)>>,
}

/// One feature: an optional numeric id, its geometry, and its decoded
/// properties, absent when they could not be resolved.
#[derive(Debug, PartialEq, Eq)]
pub struct Feature {
    pub id: Option<u64>,
    pub geometry: Geometry,
    pub properties: Option<GeoProperties>,
}

impl Feature {
    pub open spec fn deep(self) -> FeatureV {
        FeatureV {
            id: self.id,
            geometry: self.geometry@,
            properties: match self.properties {
                Some(p) => Some(p@),
                None => None,
            },
        }
    }
}

/// The mathematical shape of a layer.
pub struct LayerV {
    pub name: Seq<char>,
    pub extent: u32,
    pub version: u32,
    pub features: Seq<FeatureV>,
}

/// One layer: a name, its tile-space extent, an encoding version, and its
/// features.
#[derive(Debug, PartialEq, Eq)]
pub struct Layer {
    pub name: String,
    pub extent: u32,
    pub version: u32,
    pub features: Vec<Feature>,
}

impl Layer {
    pub open spec fn deep(self) -> LayerV {
        LayerV {
            name: self.name@,
            extent: self.extent,
            version: self.version,
            features: Seq::new(self.features@.len(), |i: int| self.features@[i].deep()),
        }
    }
}

/// The mathematical shape of a tile.
pub struct VectorTileV {
    pub layers: Seq<LayerV>,
}

/// A decoded vector tile: a list of layers.
#[derive(Debug, PartialEq, Eq)]
pub struct VectorTile {
    pub layers: Vec<Layer>,
}

impl VectorTile {
    pub open spec fn deep(self) -> VectorTileV {
        VectorTileV { layers: Seq::new(self.layers@.len(), |i: int| self.layers@[i].deep()) }
    }
}

} // verus!
