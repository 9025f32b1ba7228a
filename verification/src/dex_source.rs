//! The parts of a parsed dex file that the library reads: the methods of a
//! class, the code of a method, and the words of the code. Reading and
//! parsing the file itself is left to the caller.

use vstd::prelude::*;

verus! {

/// `dex::class::Class`, a class of a parsed file. Nothing of it is seen here
/// but through the functions below.
#[verifier::external_type_specification]
#[verifier::external_body]
pub struct ExClass(dex::class::Class);

/// `dex::method::Method`, a method of a class.
#[verifier::external_type_specification]
#[verifier::external_body]
pub struct ExMethod(dex::method::Method);

/// `dex::code::CodeItem`, the code of a method.
#[verifier::external_type_specification]
#[verifier::external_body]
pub struct ExCodeItem(dex::code::CodeItem);

/// The methods a class defines, the direct ones before the virtual ones.
pub uninterp spec fn class_methods(class: dex::class::Class) -> Seq<dex::method::Method>;

/// The code of a method, if it has any.
pub uninterp spec fn method_code(method: dex::method::Method) -> Option<dex::code::CodeItem>;

/// The instruction words of a method's code.
pub uninterp spec fn code_words(code: dex::code::CodeItem) -> Seq<u16>;

/// `dex::class::Class::methods`: the methods of the class, in the order in
/// which the class lists them. Nothing is proved of the call; the contract
/// gives its answer a name.
#[verifier::external_body]
fn methods_of(class: &dex::class::Class) -> (methods: Vec<&dex::method::Method>)
    ensures
        methods@.len() == class_methods(*class).len(),
        forall|i: int|
            0 <= i < methods@.len() ==> *(#[trigger] methods@[i]) == class_methods(*class)[i],
{
    class.methods().collect()
}

/// `dex::method::Method::code`: the method's code, which an abstract or a
/// native method lacks. Nothing is proved of the call; the contract gives its
/// answer a name.
#[verifier::external_body]
fn code_of(method: &dex::method::Method) -> (code: Option<&dex::code::CodeItem>)
    ensures
        match code {
            Some(item) => method_code(*method) == Some(*item),
            None => method_code(*method).is_none(),
        },
{
    method.code()
}

/// `dex::code::CodeItem::insns`: the words of the code. Nothing is proved of
/// the call; the contract gives its answer a name.
#[verifier::external_body]
fn words_of(code: &dex::code::CodeItem) -> (words: &Vec<u16>)
    ensures
        words@ == code_words(*code),
{
    code.insns()
}

/// The words of a method that has code.
pub open spec fn method_words(method: dex::method::Method) -> Option<Seq<u16>> {
    match method_code(method) {
        Some(code) => Some(code_words(code)),
        None => None,
    }
}

/// The words of those of `methods` that have code, in their order.
pub open spec fn words_of_methods(methods: Seq<dex::method::Method>) -> Seq<Seq<u16>>
    decreases methods.len(),
{
    if methods.len() == 0 {
        Seq::empty()
    } else {
        words_of_methods(methods.drop_last()) + match method_words(methods.last()) {
            Some(words) => seq![words],
            None => Seq::empty(),
        }
    }
}

/// The words of the methods with code of all of `classes`, class by class.
pub open spec fn words_of_classes(classes: Seq<dex::class::Class>) -> Seq<Seq<u16>>
    decreases classes.len(),
{
    if classes.len() == 0 {
        Seq::empty()
    } else {
        words_of_classes(classes.drop_last()) + words_of_methods(class_methods(classes.last()))
    }
}

/// The buffers of `methods`, as values.
pub open spec fn word_views(methods: Seq<Vec<u16>>) -> Seq<Seq<u16>> {
    Seq::new(methods.len(), |i: int| methods[i]@)
}

fn copy_words(words: &Vec<u16>) -> (copy: Vec<u16>)
    ensures
        copy@ == words@,
{
    let mut copy: Vec<u16> = Vec::new();
    let mut i: usize = 0;
    while i < words.len()
        invariant
            i <= words@.len(),
            copy@ == words@.take(i as int),
        decreases words@.len() - i,
    {
        copy.push(words[i]);
        i += 1;
        assert(copy@ =~= words@.take(i as int));
    }
    assert(words@.take(i as int) =~= words@);
    copy
}

/// Gathers the instruction words of every method with code of `classes`.
pub fn code_of_classes(classes: &[dex::class::Class]) -> (methods: Vec<Vec<u16>>)
    ensures
        word_views(methods@) == words_of_classes(classes@),
{
    let mut gathered: Vec<Vec<u16>> = Vec::new();
    let mut c: usize = 0;
    assert(word_views(gathered@) =~= words_of_classes(classes@.take(0)));
    while c < classes.len()
        invariant
            c <= classes@.len(),
            word_views(gathered@) == words_of_classes(classes@.take(c as int)),
        decreases classes@.len() - c,
    {
        let methods = methods_of(&classes[c]);
        let ghost listed = class_methods(classes@[c as int]);
        let ghost before = word_views(gathered@);
        let mut m: usize = 0;
        assert(word_views(gathered@) =~= before + words_of_methods(listed.take(0)));
        while m < methods.len()
            invariant
                m <= methods@.len(),
                methods@.len() == listed.len(),
                forall|i: int| 0 <= i < methods@.len() ==> *(#[trigger] methods@[i]) == listed[i],
                word_views(gathered@) == before + words_of_methods(listed.take(m as int)),
            decreases methods@.len() - m,
        {
            let ghost so_far = gathered@;
            proof {
                assert(listed.take(m + 1).drop_last() =~= listed.take(m as int));
                assert(listed.take(m + 1).last() == listed[m as int]);
            }
            match code_of(methods[m]) {
                Some(code) => {
                    let words = copy_words(words_of(code));
                    gathered.push(words);
                    assert(word_views(gathered@) =~= word_views(so_far) + seq![words@]);
                },
                None => {},
            }
            m += 1;
            assert(word_views(gathered@) =~= before + words_of_methods(listed.take(m as int)));
        }
        proof {
            assert(listed.take(m as int) =~= listed);
            assert(classes@.take(c + 1).drop_last() =~= classes@.take(c as int));
            assert(classes@.take(c + 1).last() == classes@[c as int]);
        }
        c += 1;
    }
    assert(classes@.take(c as int) =~= classes@);
    gathered
}

} // verus!
