use std::collections::HashMap;

use specfuzz::primitive::{DataBuff, Mutation, PrimitiveMutator, PrimitiveMutatorDefenite};
use specfuzz::dict::{CustomDict, DictEntry};
use specfuzz::random::Distributions;

#[test]
fn test_inplace() {
    let mut dist = Distributions::new(vec![]);
    let mutator = PrimitiveMutator::new();

    for _ in 0..1000 {
        let len = dist.gen_range(1, 1024);
        let mut buff = DataBuff::new(vec![0u8; 1024], 0);
        buff.set_to_random(len, &mut dist);
        let mutation = mutator.gen_inplace_mutation(&buff, &mut dist);
        mutation.apply(&mut buff);
        assert_eq!(buff.len(), len);
    }
}

#[test]
fn test_sized() {
    let mut dist = Distributions::new(vec![]);
    let mutator = PrimitiveMutator::new();

    for _ in 0..1000 {
        let len = dist.gen_range(1, 1024);
        let mut buff = DataBuff::new(vec![0u8; 1024], 0);
        buff.set_to_random(len, &mut dist);
        let mutation = mutator.gen_size_changing_mutation(&buff, &mut dist);
        println!("{:?} on buff of length {}", mutation, buff.len());
        mutation.apply(&mut buff);
        assert!(buff.len() <= buff.capacity());
    }
}

#[test]
fn test_uniqueness() {
    let mut dist = Distributions::new(vec![]);
    let mutator = PrimitiveMutator::new();
    let mut storage = HashMap::<Vec<u8>, usize>::new();
    let mut infos = HashMap::<Vec<u8>, HashMap<Mutation, usize>>::new();
    let base: Vec<u8> = (0..256).map(|_| dist.gen_u8()).collect();
    let iters = 10000;
    for _ in 0..iters {
        let mut buff = DataBuff::new(vec![0u8; 1024], 0);
        buff.set_to_slice(&base);
        let mutation = mutator.gen_mutation(&buff, &mut dist);
        mutation.apply(&mut buff);
        let inf = infos
            .entry(buff.as_slice().to_vec())
            .or_insert_with(HashMap::new);
        *(inf.entry(mutation).or_insert(0)) += 1;
        *storage.entry(buff.as_slice().to_vec()).or_insert(0) += 1;
    }
    println!("{} of {} iters produced uniq results", storage.len(), iters);
    let mut generated = storage.keys().collect::<Vec<_>>();
    generated.sort_unstable_by_key(|x| usize::MAX - storage.get(*x).unwrap());
    for dat in generated.iter().take(20) {
        println!(
            "data was hit {:?} times, produced by {:?}",
            storage.get(*dat),
            infos.get(*dat)
        );
    }
    assert!(storage.len() >= iters - (iters / 5));
}

#[test]
fn test_full_bit_flip_random() {
    let mut dist = Distributions::new(vec![]);
    let mutator = PrimitiveMutatorDefenite::new();

    for _ in 0..1000 {
        let len = dist.gen_range(1, 1024);
        let mut buff = DataBuff::new(vec![0u8; 1024], 0);
        buff.set_to_random(len, &mut dist);
        let off = dist.gen_range(0, len);
        let orig = buff.read_u8(off);
        let expected = orig ^ 0xff;

        let mutation = mutator.gen_full_bit_flip_at_offset(&buff, off);
        mutation.apply(&mut buff);
        let result = buff.read_u8(off);

        assert_eq!(
            result, expected,
            "Full bit flip failed at offset {}: expected 0x{:02X}, got 0x{:02X}",
            off, expected, result
        );
        assert_eq!(buff.len(), len, "Buffer length changed after full bit flip");
    }
}

#[test]
fn test_lowest_bit_flip_random() {
    let mut dist = Distributions::new(vec![]);
    let mutator = PrimitiveMutatorDefenite::new();

    for _ in 0..1000 {
        let len = dist.gen_range(1, 1024);
        let mut buff = DataBuff::new(vec![0u8; 1024], 0);
        buff.set_to_random(len, &mut dist);
        let off = dist.gen_range(0, len);
        let orig = buff.read_u8(off);
        let expected = orig ^ 0x01;

        let mutation = mutator.gen_lowest_bit_flip_at_offset(&buff, off);
        mutation.apply(&mut buff);
        let result = buff.read_u8(off);

        assert_eq!(
            result, expected,
            "Lowest bit flip failed at offset {}: expected 0x{:02X}, got 0x{:02X}",
            off, expected, result
        );
        assert_eq!(
            buff.len(),
            len,
            "Buffer length changed after lowest bit flip"
        );
    }
}

#[test]
fn test_subtraction_mutation_random() {
    let mut dist = Distributions::new(vec![]);
    let mutator = PrimitiveMutatorDefenite::new();

    for _ in 0..1000 {
        let len = dist.gen_range(1, 1024);
        let mut buff = DataBuff::new(vec![0u8; 1024], 0);
        buff.set_to_random(len, &mut dist);
        let off = dist.gen_range(0, len);
        let orig = buff.read_u8(off);
        let expected = orig.wrapping_sub(0x10);

        let mutation = mutator.gen_subtraction_at_offset(&buff, off);
        mutation.apply(&mut buff);
        let result = buff.read_u8(off);

        assert_eq!(
            result, expected,
            "Subtraction mutation failed at offset {}: from 0x{:02X} expected 0x{:02X}, got 0x{:02X}",
            off, orig, expected, result
        );
        assert_eq!(
            buff.len(),
            len,
            "Buffer length changed after subtraction mutation"
        );
    }
}

#[test]
fn test_addition_mutation_random() {
    let mut dist = Distributions::new(vec![]);
    let mutator = PrimitiveMutatorDefenite::new();

    for _ in 0..1000 {
        let len = dist.gen_range(1, 1024);
        let mut buff = DataBuff::new(vec![0u8; 1024], 0);
        buff.set_to_random(len, &mut dist);
        let off = dist.gen_range(0, len);
        let orig = buff.read_u8(off);
        let expected = orig.wrapping_add(0x10);

        let mutation = mutator.gen_addition_at_offset(&buff, off);
        mutation.apply(&mut buff);
        let result = buff.read_u8(off);

        assert_eq!(
            result, expected,
            "Addition mutation failed at offset {}: from 0x{:02X} expected 0x{:02X}, got 0x{:02X}",
            off, orig, expected, result
        );
        assert_eq!(
            buff.len(),
            len,
            "Buffer length changed after addition mutation"
        );
    }
}

#[test]
fn fixed_byte_perturbations_on_a_known_value() {
    // One byte 0x41: full flip, lowest-bit flip, wrapping add and subtract.
    let mutator = PrimitiveMutatorDefenite::new();
    let cases: [(u8, fn(&PrimitiveMutatorDefenite, &DataBuff) -> specfuzz::primitive::InplaceMutation); 4] = [
        (0xBE, |m, b| m.gen_full_bit_flip_at_offset(b, 0)),
        (0x40, |m, b| m.gen_lowest_bit_flip_at_offset(b, 0)),
        (0x51, |m, b| m.gen_addition_at_offset(b, 0)),
        (0x31, |m, b| m.gen_subtraction_at_offset(b, 0)),
    ];
    for (expected, gen) in cases {
        let mut buff = DataBuff::new(vec![0x41], 1);
        let mutation = gen(&mutator, &buff);
        mutation.apply(&mut buff);
        assert_eq!(buff.read_u8(0), expected);
        assert_eq!(buff.len(), 1);
    }
}

#[test]
fn dictionary_mutation_keeps_length() {
    let dict = CustomDict::new_from_groups(vec![vec![DictEntry::Replace(
        vec![1, 2],
        vec![9, 9],
    )]]);
    assert_eq!(dict.len(), 1);
    let mut dist = Distributions::new_seeded(Vec::new(), 5);
    let mutator = PrimitiveMutator::new();
    for _ in 0..100 {
        let mut buff = DataBuff::new(vec![1, 2, 3, 4], 4);
        mutator.mutate(&mut buff, Some(&dict), &mut dist);
        assert_eq!(buff.len(), 4);
    }
}
