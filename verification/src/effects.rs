//! Presentation cues a turn can carry, independent of any renderer.
use vstd::prelude::*;

verus! {

#[derive(Debug, PartialEq, Eq)]
pub struct GlyphAnomalyCue {
    pub source: String,
    pub intensity: u8,
    pub stable_terms: Vec<String>,
    pub distortion: String,
}

#[derive(Debug, PartialEq, Eq)]
pub enum EffectCue {
    GlyphAnomaly(GlyphAnomalyCue),
}

/// Source, intensity, stable terms and distortion, as text.
pub type GlyphModel = (Seq<char>, u8, Seq<Seq<char>>, Seq<char>);

pub open spec fn texts(s: Seq<String>) -> Seq<Seq<char>> {
    s.map_values(|x: String| x@)
}

impl View for GlyphAnomalyCue {
    type V = GlyphModel;

    open spec fn view(&self) -> GlyphModel {
        (self.source@, self.intensity, texts(self.stable_terms@), self.distortion@)
    }
}

impl View for EffectCue {
    type V = GlyphModel;

    open spec fn view(&self) -> GlyphModel {
        match self {
            EffectCue::GlyphAnomaly(g) => g@,
        }
    }
}

impl Clone for GlyphAnomalyCue {
    fn clone(&self) -> (r: Self)
        ensures
            r@ == self@,
    {
        let terms = self.stable_terms.clone();
        assert(terms@ =~= self.stable_terms@);
        GlyphAnomalyCue {
            source: self.source.clone(),
            intensity: self.intensity,
            stable_terms: terms,
            distortion: self.distortion.clone(),
        }
    }
}

impl Clone for EffectCue {
    fn clone(&self) -> (r: Self)
        ensures
            r@ == self@,
    {
        match self {
            EffectCue::GlyphAnomaly(g) => EffectCue::GlyphAnomaly(g.clone()),
        }
    }
}

pub open spec fn kind_label_spec(c: EffectCue) -> Seq<char> {
    match c {
        EffectCue::GlyphAnomaly(_) => "EffectCue::GlyphAnomaly"@,
    }
}

impl EffectCue {
    pub fn kind_label(&self) -> (s: &'static str)
        ensures
            s@ == kind_label_spec(*self),
    {
        match self {
            EffectCue::GlyphAnomaly(_) => "EffectCue::GlyphAnomaly",
        }
    }
}

/// The copier's glyph anomaly: which output distorts, how strongly, the
/// terms that stay legible and how the distortion resolves.
pub open spec fn printer_glyph_model() -> GlyphModel {
    ("copier_output"@, 72u8, seq!["비상계단"@, "토너"@, "접힌 방향"@], "reflow_then_stabilize"@)
}

pub fn printer_glyph_anomaly_cue() -> (c: EffectCue)
    ensures
        c@ == printer_glyph_model(),
{
    let mut terms: Vec<String> = Vec::new();
    terms.push("비상계단".to_string());
    terms.push("토너".to_string());
    terms.push("접힌 방향".to_string());
    let c = EffectCue::GlyphAnomaly(
        GlyphAnomalyCue {
            source: "copier_output".to_string(),
            intensity: 72,
            stable_terms: terms,
            distortion: "reflow_then_stabilize".to_string(),
        },
    );
    assert(c@.2 =~= printer_glyph_model().2);
    c
}

} // verus!
