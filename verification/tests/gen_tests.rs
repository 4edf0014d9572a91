use noise::{Fbm, MultiFractal, NoiseFn, Perlin, SuperSimplex};
use voxelcore::coords::ChunkPos;
use voxelcore::gen::generate_chunk;
use voxelcore::samples::{is_cave, determine_ore, OreSamples, TerrainSamples};
use voxelcore::BlockType;

/// The session noise fields, as the engine host samples them.
struct Sampler {
    height: Fbm<Perlin>,
    biome_temp: SuperSimplex,
    cave_cheese: Fbm<Perlin>,
    cave_spaghetti_a: Perlin,
    cave_spaghetti_b: Perlin,
    cave_noodle_a: Perlin,
    cave_noodle_b: Perlin,
    ore_noises: [Perlin; 4],
    ore: Perlin,
    gravel: Perlin,
    clay: Perlin,
    grass_scatter: Perlin,
}

impl Sampler {
    fn with_seed(seed: u32) -> Self {
        Sampler {
            height: Fbm::<Perlin>::new(seed)
                .set_octaves(3)
                .set_frequency(0.005)
                .set_persistence(0.5)
                .set_lacunarity(2.0),
            biome_temp: SuperSimplex::new(seed.wrapping_add(1)),
            cave_cheese: Fbm::<Perlin>::new(seed.wrapping_add(10))
                .set_octaves(2)
                .set_frequency(0.02),
            cave_spaghetti_a: Perlin::new(seed.wrapping_add(20)),
            cave_spaghetti_b: Perlin::new(seed.wrapping_add(21)),
            cave_noodle_a: Perlin::new(seed.wrapping_add(30)),
            cave_noodle_b: Perlin::new(seed.wrapping_add(31)),
            ore_noises: [
                Perlin::new(seed.wrapping_add(50)),
                Perlin::new(seed.wrapping_add(51)),
                Perlin::new(seed.wrapping_add(52)),
                Perlin::new(seed.wrapping_add(53)),
            ],
            ore: Perlin::new(seed.wrapping_add(3)),
            gravel: Perlin::new(seed.wrapping_add(40)),
            clay: Perlin::new(seed.wrapping_add(41)),
            grass_scatter: Perlin::new(seed.wrapping_add(42)),
        }
    }

    fn sample_height(&self, wx: i32, wz: i32) -> i32 {
        let val = self.height.get([wx as f64, wz as f64]);
        (64.0 + val * 30.0) as i32
    }

    fn triangular_weight(y: i32, min: i32, max: i32, peak: i32) -> f64 {
        if y < min || y > max {
            return 0.0;
        }
        let y = y as f64;
        let min = min as f64;
        let max = max as f64;
        let peak = peak as f64;
        if y <= peak {
            (y - min) / (peak - min)
        } else {
            (max - y) / (max - peak)
        }
    }

    fn ore_hit(&self, wx: i32, wy: i32, wz: i32, index: usize) -> bool {
        let (min, max, peak, k) = match index {
            0 => (5, 16, 8, 0.35),
            1 => (5, 30, 12, 0.45),
            2 => (5, 54, 28, 0.68),
            _ => (5, 95, 48, 0.82),
        };
        let weight = Self::triangular_weight(wy, min, max, peak);
        if weight <= 0.0 {
            return false;
        }
        let density =
            self.ore_noises[index].get([wx as f64 * 0.1, wy as f64 * 0.1, wz as f64 * 0.1]);
        density > 1.0 - weight * k
    }

    /// All noise data for one chunk, thresholded to plain values.
    fn chunk_samples(&self, c: ChunkPos) -> TerrainSamples {
        let bx = c.x * 16;
        let by = c.y * 16;
        let bz = c.z * 16;
        let mut s = TerrainSamples {
            height: Vec::with_capacity(256),
            desert: Vec::with_capacity(256),
            cheese: Vec::with_capacity(4096),
            spaghetti: Vec::with_capacity(4096),
            noodle: Vec::with_capacity(4096),
            gravel: Vec::with_capacity(4096),
            ore_diamond: Vec::with_capacity(4096),
            ore_gold: Vec::with_capacity(4096),
            ore_iron: Vec::with_capacity(4096),
            ore_coal: Vec::with_capacity(4096),
            clay: Vec::with_capacity(256),
            grass: Vec::with_capacity(256),
            tree_gate: Vec::with_capacity(256),
            tree_roll: Vec::with_capacity(256),
            birch: Vec::with_capacity(256),
        };
        for z in 0..16 {
            for x in 0..16 {
                let wx = bx + x;
                let wz = bz + z;
                s.height.push(self.sample_height(wx, wz));
                let temp =
                    self.biome_temp.get([wx as f64 * 0.002, wz as f64 * 0.002]);
                s.desert.push(temp > 0.3);
                s.clay.push(self.clay.get([wx as f64 * 0.08, wz as f64 * 0.08]) > 0.5);
                s.grass
                    .push(self.grass_scatter.get([wx as f64 * 0.3, wz as f64 * 0.3]) > 0.6);
                let gx = wx.div_euclid(7);
                let gz = wz.div_euclid(7);
                let tree_noise = self.ore.get([gx as f64 * 1.5, gz as f64 * 1.5]);
                s.tree_gate.push(tree_noise >= 0.2);
                s.tree_roll.push((tree_noise * 10.0) as i32);
                let variety = self.ore.get([wx as f64 * 0.7, wz as f64 * 0.7]);
                s.birch.push(variety > 0.4);
            }
        }
        for y in 0..16 {
            let wy = by + y;
            for z in 0..16 {
                for x in 0..16 {
                    let wx = bx + x;
                    let wz = bz + z;
                    let (fx, fy, fz) = (wx as f64, wy as f64, wz as f64);
                    s.cheese.push(self.cave_cheese.get([fx, fy, fz]) > 0.45);
                    let spa_a =
                        self.cave_spaghetti_a.get([fx * 0.04, fy * 0.04, fz * 0.04]);
                    let spa_b =
                        self.cave_spaghetti_b.get([fx * 0.04, fy * 0.04, fz * 0.04]);
                    s.spaghetti.push(spa_a.abs() + spa_b.abs() < 0.15);
                    let noo_a = self.cave_noodle_a.get([fx * 0.08, fy * 0.08, fz * 0.08]);
                    let noo_b = self.cave_noodle_b.get([fx * 0.08, fy * 0.08, fz * 0.08]);
                    s.noodle.push(noo_a.abs() + noo_b.abs() < 0.08);
                    s.gravel
                        .push(self.gravel.get([fx * 0.05, fy * 0.05, fz * 0.05]) > 0.7);
                    s.ore_diamond.push(self.ore_hit(wx, wy, wz, 0));
                    s.ore_gold.push(self.ore_hit(wx, wy, wz, 1));
                    s.ore_iron.push(self.ore_hit(wx, wy, wz, 2));
                    s.ore_coal.push(self.ore_hit(wx, wy, wz, 3));
                }
            }
        }
        s
    }
}

#[test]
fn seed_42_chunk_origin_deterministic() {
    // Seed 42, chunk (0,0,0) generated twice: byte-identical 4096-byte
    // buffers.
    let sampler = Sampler::with_seed(42);
    let c = ChunkPos::new(0, 0, 0);
    let s1 = sampler.chunk_samples(c);
    let s2 = sampler.chunk_samples(c);
    assert!(s1.valid() && s2.valid());
    let a = generate_chunk(c, &s1);
    let b = generate_chunk(c, &s2);
    assert_eq!(a.serialize(), b.serialize());
    assert_eq!(a.serialize().len(), 4096);
}

#[test]
fn fresh_sampler_same_seed_same_chunk() {
    // A fresh noise source with the same seed regenerates the same world.
    let c = ChunkPos::new(3, 2, -4);
    let a = generate_chunk(c, &Sampler::with_seed(7).chunk_samples(c));
    let b = generate_chunk(c, &Sampler::with_seed(7).chunk_samples(c));
    assert_eq!(a.serialize(), b.serialize());
}

#[test]
fn different_seeds_differ() {
    let c = ChunkPos::new(0, 3, 0);
    let a = generate_chunk(c, &Sampler::with_seed(1).chunk_samples(c));
    let b = generate_chunk(c, &Sampler::with_seed(2).chunk_samples(c));
    assert_ne!(a.serialize(), b.serialize());
}

#[test]
fn bedrock_at_world_height_zero() {
    let sampler = Sampler::with_seed(42);
    let c = ChunkPos::new(0, 0, 0);
    let chunk = generate_chunk(c, &sampler.chunk_samples(c));
    for x in 0..16 {
        for z in 0..16 {
            assert_eq!(chunk.get(x, 0, z), BlockType::Bedrock);
        }
    }
}

#[test]
fn cave_bedrock_protection() {
    // Whatever the fields and surface say, no cave at height zero or below.
    for &cheese in &[false, true] {
        for &spa in &[false, true] {
            for &noo in &[false, true] {
                for &h in &[-50, 0, 3, 64, 2000] {
                    assert!(!is_cave(cheese, spa, noo, 0, h));
                    assert!(!is_cave(cheese, spa, noo, -1, h));
                    assert!(!is_cave(cheese, spa, noo, -1000, h));
                }
            }
        }
    }
}

#[test]
fn cave_families_respect_depth_gates() {
    // Cheese chambers need 4 cells of cover; tunnels reach the surface.
    assert!(!is_cave(true, false, false, 61, 64));
    assert!(is_cave(true, false, false, 60, 64));
    assert!(is_cave(false, true, false, 64, 64));
    assert!(is_cave(false, false, true, 64, 64));
    assert!(!is_cave(false, true, false, 65, 64));
}

#[test]
fn ore_depth_bounds() {
    // Even with every density sample high, each ore stays in its band.
    let all = OreSamples { diamond: true, gold: true, iron: true, coal: true };
    for wy in -50..130 {
        match determine_ore(all, wy) {
            Some(BlockType::DiamondOre) => assert!(5 <= wy && wy <= 16),
            Some(BlockType::GoldOre) => assert!(5 <= wy && wy <= 30),
            Some(BlockType::IronOre) => assert!(5 <= wy && wy <= 54),
            Some(BlockType::CoalOre) => assert!(5 <= wy && wy <= 95),
            Some(_) => panic!("not an ore"),
            None => assert!(wy <= 5 || wy >= 95),
        }
    }
}

#[test]
fn ore_priority_order() {
    let all = OreSamples { diamond: true, gold: true, iron: true, coal: true };
    assert_eq!(determine_ore(all, 8), Some(BlockType::DiamondOre));
    let no_diamond = OreSamples { diamond: false, gold: true, iron: true, coal: true };
    assert_eq!(determine_ore(no_diamond, 8), Some(BlockType::GoldOre));
    let coal_only = OreSamples { diamond: false, gold: false, iron: false, coal: true };
    assert_eq!(determine_ore(coal_only, 80), Some(BlockType::CoalOre));
}

#[test]
fn surface_chunk_has_terrain_bands() {
    // The chunk spanning heights 48..64 around sea level holds stone and
    // some surface material.
    let sampler = Sampler::with_seed(42);
    let c = ChunkPos::new(0, 3, 0);
    let chunk = generate_chunk(c, &sampler.chunk_samples(c));
    let mut counts = std::collections::HashMap::new();
    for x in 0..16 {
        for y in 0..16 {
            for z in 0..16 {
                *counts.entry(chunk.get(x, y, z)).or_insert(0u32) += 1;
            }
        }
    }
    assert!(counts.get(&BlockType::Stone).copied().unwrap_or(0) > 0);
}
