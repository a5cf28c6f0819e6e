use vstd::prelude::*;

verus! {

/// The mallet command's reply: the first word given to the command is bonked.
pub fn mallet_text(args: &Vec<String>) -> (s: String)
    requires
        args.len() > 0,
    ensures
        s@ == "Bonked "@ + args@[0]@ + " with the mallet of loving correction"@,
{
    let mut s = "Bonked ".to_owned();
    s.append(args[0].as_str());
    s.append(" with the mallet of loving correction");
    s
}

} // verus!
