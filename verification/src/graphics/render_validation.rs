//! Render integration validation: per-pass checklists and the pipeline
//! completeness table.

use vstd::prelude::*;

verus! {

/// Validation checklist for a render pass
#[derive(Clone, Debug)]
pub struct PassChecklist {
    pub pass_name: &'static str,
    pub checks: Vec<PassCheck>,
}

#[derive(Clone, Debug)]
pub struct PassCheck {
    pub name: &'static str,
    pub description: &'static str,
    pub status: CheckStatus,
}

#[derive(Clone, Copy, Debug, PartialEq, Eq, Structural)]
pub enum CheckStatus {
    NotTested,
    Passed,
    Failed,
    Skipped,
}

/// The pass names of the checklists of the dormant passes, in order.
pub open spec fn checklist_pass_names() -> Seq<Seq<char>> {
    seq!["Atmosphere/Fog"@, "IBL"@, "TAA"@, "SSAO"@, "Bloom"@, "Contact Shadows"@, "Reflection Probes"@]
}

/// The check names and descriptions of the checklist of each dormant pass.
pub open spec fn checklist_checks() -> Seq<Seq<(Seq<char>, Seq<char>)>> {
    seq![
        seq![("no_nan_pixels"@, "No NaN/Inf in output"@), ("exposure_respect"@, "Fog respects auto-exposure"@), ("time_of_day"@, "Works across sunrise/noon/dusk/night"@), ("low_tier_disabled"@, "Gracefully disabled on Low tier"@)],
        seq![("env_light_binds"@, "EnvLightUniforms bound to PBR shader"@), ("time_responsive"@, "Ambient changes with day progress"@), ("no_overbright"@, "No overexposure from IBL"@)],
        seq![("motion_vectors"@, "Motion vectors generated in geometry pass"@), ("jitter_applied"@, "Sub-pixel jitter on projection"@), ("no_ghosting"@, "No ghosting on moving objects"@), ("reactive_mask"@, "Particles/UI excluded from TAA"@), ("history_rejection"@, "Disocclusion handled"@)],
        seq![("normal_buffer"@, "Normal buffer output from geometry pass"@), ("no_halo"@, "No dirty halo artifacts"@), ("denoise"@, "Spatial denoise applied"@), ("high_tier_only"@, "Disabled on Low/Medium tiers"@)],
        seq![("blur_chain"@, "4-level downsample + upsample"@), ("no_soap"@, "No over-bloom (2016 soap effect)"@), ("threshold_correct"@, "Only bright pixels bloom"@)],
        seq![("depth_bound"@, "Depth buffer correctly bound"@), ("no_noise"@, "No excessive noise"@), ("complement_csm"@, "Complements CSM, doesn't fight it"@)],
        seq![("nearest_lookup"@, "nearest_probe() used in PBR"@), ("parallax_correction"@, "Box parallax correction"@), ("blend_probes"@, "Smooth blending between probes"@)],
    ]
}

/// Generate the validation checklist for all dormant passes
pub fn generate_pass_checklists() -> (lists: Vec<PassChecklist>)
    ensures
        lists@.len() == checklist_pass_names().len(),
        forall|i: int|
            0 <= i < lists@.len() ==> {
                &&& (#[trigger] lists@[i]).pass_name@ == checklist_pass_names()[i]
                &&& lists@[i].checks@.len() == checklist_checks()[i].len()
                &&& forall|j: int|
                    0 <= j < lists@[i].checks@.len() ==> {
                        &&& (#[trigger] lists@[i].checks@[j]).name@ == checklist_checks()[i][j].0
                        &&& lists@[i].checks@[j].description@ == checklist_checks()[i][j].1
                        &&& lists@[i].checks@[j].status == CheckStatus::NotTested
                    }
            },
{
    let lists = vec![
        PassChecklist {
            pass_name: "Atmosphere/Fog",
            checks: vec![
                PassCheck { name: "no_nan_pixels", description: "No NaN/Inf in output", status: CheckStatus::NotTested },
                PassCheck { name: "exposure_respect", description: "Fog respects auto-exposure", status: CheckStatus::NotTested },
                PassCheck { name: "time_of_day", description: "Works across sunrise/noon/dusk/night", status: CheckStatus::NotTested },
                PassCheck { name: "low_tier_disabled", description: "Gracefully disabled on Low tier", status: CheckStatus::NotTested },
            ],
        },
        PassChecklist {
            pass_name: "IBL",
            checks: vec![
                PassCheck { name: "env_light_binds", description: "EnvLightUniforms bound to PBR shader", status: CheckStatus::NotTested },
                PassCheck { name: "time_responsive", description: "Ambient changes with day progress", status: CheckStatus::NotTested },
                PassCheck { name: "no_overbright", description: "No overexposure from IBL", status: CheckStatus::NotTested },
            ],
        },
        PassChecklist {
            pass_name: "TAA",
            checks: vec![
                PassCheck { name: "motion_vectors", description: "Motion vectors generated in geometry pass", status: CheckStatus::NotTested },
                PassCheck { name: "jitter_applied", description: "Sub-pixel jitter on projection", status: CheckStatus::NotTested },
                PassCheck { name: "no_ghosting", description: "No ghosting on moving objects", status: CheckStatus::NotTested },
                PassCheck { name: "reactive_mask", description: "Particles/UI excluded from TAA", status: CheckStatus::NotTested },
                PassCheck { name: "history_rejection", description: "Disocclusion handled", status: CheckStatus::NotTested },
            ],
        },
        PassChecklist {
            pass_name: "SSAO",
            checks: vec![
                PassCheck { name: "normal_buffer", description: "Normal buffer output from geometry pass", status: CheckStatus::NotTested },
                PassCheck { name: "no_halo", description: "No dirty halo artifacts", status: CheckStatus::NotTested },
                PassCheck { name: "denoise", description: "Spatial denoise applied", status: CheckStatus::NotTested },
                PassCheck { name: "high_tier_only", description: "Disabled on Low/Medium tiers", status: CheckStatus::NotTested },
            ],
        },
        PassChecklist {
            pass_name: "Bloom",
            checks: vec![
                PassCheck { name: "blur_chain", description: "4-level downsample + upsample", status: CheckStatus::NotTested },
                PassCheck { name: "no_soap", description: "No over-bloom (2016 soap effect)", status: CheckStatus::NotTested },
                PassCheck { name: "threshold_correct", description: "Only bright pixels bloom", status: CheckStatus::NotTested },
            ],
        },
        PassChecklist {
            pass_name: "Contact Shadows",
            checks: vec![
                PassCheck { name: "depth_bound", description: "Depth buffer correctly bound", status: CheckStatus::NotTested },
                PassCheck { name: "no_noise", description: "No excessive noise", status: CheckStatus::NotTested },
                PassCheck { name: "complement_csm", description: "Complements CSM, doesn't fight it", status: CheckStatus::NotTested },
            ],
        },
        PassChecklist {
            pass_name: "Reflection Probes",
            checks: vec![
                PassCheck { name: "nearest_lookup", description: "nearest_probe() used in PBR", status: CheckStatus::NotTested },
                PassCheck { name: "parallax_correction", description: "Box parallax correction", status: CheckStatus::NotTested },
                PassCheck { name: "blend_probes", description: "Smooth blending between probes", status: CheckStatus::NotTested },
            ],
        },
    ];
    lists
}

#[derive(Clone, Debug)]
pub struct RenderValidationResult {
    pub checks: Vec<RenderCheck>,
}

#[derive(Clone, Debug)]
pub struct RenderCheck {
    pub name: &'static str,
    pub status: RenderCheckStatus,
    pub details: String,
}

#[derive(Clone, Debug, PartialEq, Eq, Structural)]
pub enum RenderCheckStatus {
    Pass,
    Partial,
    Missing,
}

/// The name, status and details of each check of the render pipeline, in order.
pub open spec fn pipeline_checks() -> Seq<(Seq<char>, RenderCheckStatus, Seq<char>)> {
    seq![
        ("Shadow Maps"@, RenderCheckStatus::Pass, "4-cascade CSM with depth comparison sampling"@),
        ("G-Buffer / HDR Target"@, RenderCheckStatus::Pass, "Rgba16Float HDR target with separate depth"@),
        ("PBR Lighting"@, RenderCheckStatus::Pass, "GGX specular + Fresnel + Cook-Torrance BRDF"@),
        ("IBL / Environment"@, RenderCheckStatus::Pass, "IblBindings with day-progress-based environment lighting"@),
        ("Atmosphere"@, RenderCheckStatus::Partial, "AtmospherePass wired as dormant, not yet in main render loop"@),
        ("Contact Shadows"@, RenderCheckStatus::Partial, "ContactShadowPass wired as dormant, not yet in main render loop"@),
        ("TAA"@, RenderCheckStatus::Partial, "TaaPass wired, advance_frame() called, resolve not in main loop"@),
        ("Bloom"@, RenderCheckStatus::Pass, "BloomPass extraction from HDR, multi-pass composite pending"@),
        ("Tonemap"@, RenderCheckStatus::Pass, "HDR -> sRGB tonemap as final pass"@),
        ("Skybox"@, RenderCheckStatus::Pass, "Procedural sky with sun position, day/night cycle"@),
        ("Skinned Mesh"@, RenderCheckStatus::Partial, "Pipeline ready, upload API exists, no skinned assets loaded"@),
        ("Vegetation"@, RenderCheckStatus::Pass, "Grass + tree instances from heightmap/biome"@),
        ("Entity Instancing"@, RenderCheckStatus::Pass, "Instanced capsule rendering with indirect draw"@),
        ("Particles"@, RenderCheckStatus::Missing, "Particle system exists in code but not wired to renderer"@),
        ("SSAO"@, RenderCheckStatus::Missing, "Not yet implemented - requires G-Buffer normals+depth"@),
        ("Deferred Shading"@, RenderCheckStatus::Missing, "Currently forward; deferred pass architecture planned"@),
    ]
}

/// How many of `checks` have status `status`.
pub open spec fn count_status(checks: Seq<RenderCheck>, status: RenderCheckStatus) -> nat
    decreases checks.len(),
{
    if checks.len() == 0 {
        0
    } else {
        count_status(checks.drop_last(), status) + if checks.last().status == status {
            1nat
        } else {
            0nat
        }
    }
}

impl RenderValidationResult {
    pub fn validate_pipeline() -> (result: Self)
        ensures
            result.checks@.len() == pipeline_checks().len(),
            forall|i: int|
                0 <= i < result.checks@.len() ==> {
                    &&& (#[trigger] result.checks@[i]).name@ == pipeline_checks()[i].0
                    &&& result.checks@[i].status == pipeline_checks()[i].1
                    &&& result.checks@[i].details@ == pipeline_checks()[i].2
                },
    {
        let checks = vec![
            RenderCheck {
                name: "Shadow Maps",
                status: RenderCheckStatus::Pass,
                details: "4-cascade CSM with depth comparison sampling".to_string(),
            },
            RenderCheck {
                name: "G-Buffer / HDR Target",
                status: RenderCheckStatus::Pass,
                details: "Rgba16Float HDR target with separate depth".to_string(),
            },
            RenderCheck {
                name: "PBR Lighting",
                status: RenderCheckStatus::Pass,
                details: "GGX specular + Fresnel + Cook-Torrance BRDF".to_string(),
            },
            RenderCheck {
                name: "IBL / Environment",
                status: RenderCheckStatus::Pass,
                details: "IblBindings with day-progress-based environment lighting".to_string(),
            },
            RenderCheck {
                name: "Atmosphere",
                status: RenderCheckStatus::Partial,
                details: "AtmospherePass wired as dormant, not yet in main render loop".to_string(),
            },
            RenderCheck {
                name: "Contact Shadows",
                status: RenderCheckStatus::Partial,
                details: "ContactShadowPass wired as dormant, not yet in main render loop".to_string(),
            },
            RenderCheck {
                name: "TAA",
                status: RenderCheckStatus::Partial,
                details: "TaaPass wired, advance_frame() called, resolve not in main loop".to_string(),
            },
            RenderCheck {
                name: "Bloom",
                status: RenderCheckStatus::Pass,
                details: "BloomPass extraction from HDR, multi-pass composite pending".to_string(),
            },
            RenderCheck {
                name: "Tonemap",
                status: RenderCheckStatus::Pass,
                details: "HDR -> sRGB tonemap as final pass".to_string(),
            },
            RenderCheck {
                name: "Skybox",
                status: RenderCheckStatus::Pass,
                details: "Procedural sky with sun position, day/night cycle".to_string(),
            },
            RenderCheck {
                name: "Skinned Mesh",
                status: RenderCheckStatus::Partial,
                details: "Pipeline ready, upload API exists, no skinned assets loaded".to_string(),
            },
            RenderCheck {
                name: "Vegetation",
                status: RenderCheckStatus::Pass,
                details: "Grass + tree instances from heightmap/biome".to_string(),
            },
            RenderCheck {
                name: "Entity Instancing",
                status: RenderCheckStatus::Pass,
                details: "Instanced capsule rendering with indirect draw".to_string(),
            },
            RenderCheck {
                name: "Particles",
                status: RenderCheckStatus::Missing,
                details: "Particle system exists in code but not wired to renderer".to_string(),
            },
            RenderCheck {
                name: "SSAO",
                status: RenderCheckStatus::Missing,
                details: "Not yet implemented - requires G-Buffer normals+depth".to_string(),
            },
            RenderCheck {
                name: "Deferred Shading",
                status: RenderCheckStatus::Missing,
                details: "Currently forward; deferred pass architecture planned".to_string(),
            },
        ];
        RenderValidationResult { checks }
    }

    pub fn pass_count(&self) -> (count: usize)
        ensures
            count == count_status(self.checks@, RenderCheckStatus::Pass),
    {
        let n = self.checks.len();
        let mut count: usize = 0;
        let mut i: usize = 0;
        while i < n
            invariant
                n == self.checks@.len(),
                0 <= i <= n,
                count == count_status(self.checks@.take(i as int), RenderCheckStatus::Pass),
                count <= i,
            decreases n - i,
        {
            assert(self.checks@.take(i + 1).drop_last() =~= self.checks@.take(i as int));
            if self.checks[i].status == RenderCheckStatus::Pass {
                count = count + 1;
            }
            i = i + 1;
        }
        assert(self.checks@.take(n as int) =~= self.checks@);
        count
    }

    pub fn partial_count(&self) -> (count: usize)
        ensures
            count == count_status(self.checks@, RenderCheckStatus::Partial),
    {
        let n = self.checks.len();
        let mut count: usize = 0;
        let mut i: usize = 0;
        while i < n
            invariant
                n == self.checks@.len(),
                0 <= i <= n,
                count == count_status(self.checks@.take(i as int), RenderCheckStatus::Partial),
                count <= i,
            decreases n - i,
        {
            assert(self.checks@.take(i + 1).drop_last() =~= self.checks@.take(i as int));
            if self.checks[i].status == RenderCheckStatus::Partial {
                count = count + 1;
            }
            i = i + 1;
        }
        assert(self.checks@.take(n as int) =~= self.checks@);
        count
    }

    pub fn missing_count(&self) -> (count: usize)
        ensures
            count == count_status(self.checks@, RenderCheckStatus::Missing),
    {
        let n = self.checks.len();
        let mut count: usize = 0;
        let mut i: usize = 0;
        while i < n
            invariant
                n == self.checks@.len(),
                0 <= i <= n,
                count == count_status(self.checks@.take(i as int), RenderCheckStatus::Missing),
                count <= i,
            decreases n - i,
        {
            assert(self.checks@.take(i + 1).drop_last() =~= self.checks@.take(i as int));
            if self.checks[i].status == RenderCheckStatus::Missing {
                count = count + 1;
            }
            i = i + 1;
        }
        assert(self.checks@.take(n as int) =~= self.checks@);
        count
    }
}

/// Every check has exactly one status: the three counts add up to the number
/// of checks.
pub proof fn lemma_status_counts_add_up(checks: Seq<RenderCheck>)
    ensures
        count_status(checks, RenderCheckStatus::Pass) + count_status(checks, RenderCheckStatus::Partial)
            + count_status(checks, RenderCheckStatus::Missing) == checks.len(),
    decreases checks.len(),
{
    if checks.len() > 0 {
        lemma_status_counts_add_up(checks.drop_last());
    }
}

/// The documented state of the render pipeline: atmosphere, contact shadows,
/// TAA and skinned meshes are partial; particles, SSAO and deferred shading
/// are missing; every other check, bloom included, passes.
pub proof fn lemma_pipeline_statuses()
    ensures
        pipeline_checks().len() == 16,
        pipeline_checks()[0].0 == "Shadow Maps"@ && pipeline_checks()[0].1 == RenderCheckStatus::Pass,
        pipeline_checks()[1].0 == "G-Buffer / HDR Target"@ && pipeline_checks()[1].1 == RenderCheckStatus::Pass,
        pipeline_checks()[2].0 == "PBR Lighting"@ && pipeline_checks()[2].1 == RenderCheckStatus::Pass,
        pipeline_checks()[3].0 == "IBL / Environment"@ && pipeline_checks()[3].1 == RenderCheckStatus::Pass,
        pipeline_checks()[4].0 == "Atmosphere"@ && pipeline_checks()[4].1 == RenderCheckStatus::Partial,
        pipeline_checks()[5].0 == "Contact Shadows"@ && pipeline_checks()[5].1 == RenderCheckStatus::Partial,
        pipeline_checks()[6].0 == "TAA"@ && pipeline_checks()[6].1 == RenderCheckStatus::Partial,
        pipeline_checks()[7].0 == "Bloom"@ && pipeline_checks()[7].1 == RenderCheckStatus::Pass,
        pipeline_checks()[8].0 == "Tonemap"@ && pipeline_checks()[8].1 == RenderCheckStatus::Pass,
        pipeline_checks()[9].0 == "Skybox"@ && pipeline_checks()[9].1 == RenderCheckStatus::Pass,
        pipeline_checks()[10].0 == "Skinned Mesh"@ && pipeline_checks()[10].1 == RenderCheckStatus::Partial,
        pipeline_checks()[11].0 == "Vegetation"@ && pipeline_checks()[11].1 == RenderCheckStatus::Pass,
        pipeline_checks()[12].0 == "Entity Instancing"@ && pipeline_checks()[12].1 == RenderCheckStatus::Pass,
        pipeline_checks()[13].0 == "Particles"@ && pipeline_checks()[13].1 == RenderCheckStatus::Missing,
        pipeline_checks()[14].0 == "SSAO"@ && pipeline_checks()[14].1 == RenderCheckStatus::Missing,
        pipeline_checks()[15].0 == "Deferred Shading"@ && pipeline_checks()[15].1 == RenderCheckStatus::Missing,
{
}

} // verus!
